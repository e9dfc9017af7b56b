//! Laws of the layout that the transaction advice inputs follow: where each datum stands on the
//! advice stack and in a note's data, and which entries and nodes each part of the inputs adds.

use vstd::prelude::*;

use crate::advice::entries_view;
use crate::inputs::{AccountInputs, AssetWitness, BlockHeader, InputNote, PartialAccount, PartialBlockchain, TransactionArgs, TransactionInputs, TransactionKernel};
use crate::merkle::{entries_elements, leaf_elements, leaf_entries, merkle_path_nodes, node_entries, smt_leaf_hash, InnerNode, SmtLeaf, StoreNode};
use crate::mmr::{lemma_padded_peaks_shape, mmr_added_nodes, mmr_inner_nodes, padded_peaks, poseidon2_hash_elements};
use crate::tx_advice::{
    account_entries, account_header_elements, account_nodes, assets_entries, assets_nodes, block_for, block_leaves,
    chain_entries, chain_has_block, chain_nodes, foreign_account_entries, foreign_entries, foreign_nodes,
    input_notes_entries, kernel_entries, leaf_entry, leaves_entries, new_account_entries, note_arg, note_data,
    note_entries, note_nodes, notes_data, notes_entries, notes_nodes, script_entries, seed_entries, tx_inputs_wf,
    tx_map_entries, tx_stack, tx_store_nodes,
};
use crate::word::{canonical_word, felt_of, words_elements, Felt, Word, ONE, ZERO};

verus! {

/// The advice stack data of a transaction holds, word by word, in the order in which the kernel
/// reads it: the parent block commitment, the partial blockchain commitment, the account root,
/// the nullifier root, the transaction commitment, the transaction kernel commitment, the
/// validator key commitment, `[block_num, version, timestamp, 0]`, the fee word
/// `[native asset suffix, native asset prefix, verification base fee, 0]`, a zero word and the
/// note root; then the kernel version; then `[nonce, 0, id suffix, id prefix]`, the vault
/// root, the storage commitment and the code commitment of the account; then the number of
/// input notes, the script root (zero without a script), the script arguments and the
/// authentication arguments.
pub proof fn lemma_tx_stack_layout(tx: TransactionInputs, k: TransactionKernel)
    ensures
        tx_stack(tx, k).len() == 74,
        tx_stack(tx, k).subrange(0, 4) == tx.block_header.prev_block_commitment.elements(),
        tx_stack(tx, k).subrange(4, 8) == tx.block_header.chain_commitment.elements(),
        tx_stack(tx, k).subrange(8, 12) == tx.block_header.account_root.elements(),
        tx_stack(tx, k).subrange(12, 16) == tx.block_header.nullifier_root.elements(),
        tx_stack(tx, k).subrange(16, 20) == tx.block_header.tx_commitment.elements(),
        tx_stack(tx, k).subrange(20, 24) == tx.block_header.tx_kernel_commitment.elements(),
        tx_stack(tx, k).subrange(24, 28) == tx.block_header.validator_key_commitment.elements(),
        tx_stack(tx, k)[28] == tx.block_header.block_num as Felt,
        tx_stack(tx, k)[29] == tx.block_header.version as Felt,
        tx_stack(tx, k)[30] == tx.block_header.timestamp as Felt,
        tx_stack(tx, k)[31] == ZERO,
        tx_stack(tx, k)[32] == tx.block_header.native_asset_id.suffix,
        tx_stack(tx, k)[33] == tx.block_header.native_asset_id.prefix,
        tx_stack(tx, k)[34] == tx.block_header.verification_base_fee as Felt,
        tx_stack(tx, k)[35] == ZERO,
        tx_stack(tx, k).subrange(36, 40) == seq![ZERO, ZERO, ZERO, ZERO],
        tx_stack(tx, k).subrange(40, 44) == tx.block_header.note_root.elements(),
        tx_stack(tx, k)[44] == k.version as Felt,
        tx_stack(tx, k).subrange(45, 49) == seq![tx.account.nonce, ZERO, tx.account.id.suffix, tx.account.id.prefix],
        tx_stack(tx, k).subrange(49, 53) == tx.account.vault.root.elements(),
        tx_stack(tx, k).subrange(53, 57) == tx.account.storage.commitment.elements(),
        tx_stack(tx, k).subrange(57, 61) == tx.account.code.commitment.elements(),
        tx_stack(tx, k)[61] == felt_of(tx.input_notes.notes@.len() as int),
        tx_stack(tx, k).subrange(62, 66) == match tx.tx_args.tx_script {
            Some(s) => s.root.elements(),
            None => seq![ZERO, ZERO, ZERO, ZERO],
        },
        tx_stack(tx, k).subrange(66, 70) == tx.tx_args.tx_script_args.elements(),
        tx_stack(tx, k).subrange(70, 74) == tx.tx_args.auth_args.elements(),
{
    let s = tx_stack(tx, k);
    let h = tx.block_header;
    assert(s.subrange(0, 4) =~= h.prev_block_commitment.elements());
    assert(s.subrange(4, 8) =~= h.chain_commitment.elements());
    assert(s.subrange(8, 12) =~= h.account_root.elements());
    assert(s.subrange(12, 16) =~= h.nullifier_root.elements());
    assert(s.subrange(16, 20) =~= h.tx_commitment.elements());
    assert(s.subrange(20, 24) =~= h.tx_kernel_commitment.elements());
    assert(s.subrange(24, 28) =~= h.validator_key_commitment.elements());
    assert(s.subrange(36, 40) =~= seq![ZERO, ZERO, ZERO, ZERO]);
    assert(s.subrange(40, 44) =~= h.note_root.elements());
    assert(s.subrange(45, 49) =~= seq![tx.account.nonce, ZERO, tx.account.id.suffix, tx.account.id.prefix]);
    assert(s.subrange(49, 53) =~= tx.account.vault.root.elements());
    assert(s.subrange(53, 57) =~= tx.account.storage.commitment.elements());
    assert(s.subrange(57, 61) =~= tx.account.code.commitment.elements());
    match tx.tx_args.tx_script {
        Some(sc) => { assert(s.subrange(62, 66) =~= sc.root.elements()); },
        None => { assert(s.subrange(62, 66) =~= seq![ZERO, ZERO, ZERO, ZERO]); },
    }
    assert(s.subrange(66, 70) =~= tx.tx_args.tx_script_args.elements());
    assert(s.subrange(70, 74) =~= tx.tx_args.auth_args.elements());
}

/// The data of an input note holds, in order: its serial number, its script root, its inputs
/// commitment, its assets commitment, its argument (zero where it has none), its metadata, the
/// number of its inputs, the number of its assets and its padded assets. After those, an
/// authenticated note has the flag one, the number of the block it was created in, that block's
/// sub-commitment and note root, and its index in the block's note tree; another note has the
/// flag zero and nothing more.
pub proof fn lemma_note_data_layout(tx: TransactionInputs, n: InputNote)
    ensures
        ({
            let note = *n.spec_note();
            let d = note_data(tx, n);
            let a = note.assets.padded@.len() as int;
            &&& d.subrange(0, 4) == note.recipient.serial_num.elements()
            &&& d.subrange(4, 8) == note.recipient.script_root.elements()
            &&& d.subrange(8, 12) == note.recipient.inputs.commitment.elements()
            &&& d.subrange(12, 16) == note.assets.commitment.elements()
            &&& d.subrange(16, 20) == note_arg(tx.tx_args, note.id).elements()
            &&& d.subrange(20, 24) == note.metadata.elements()
            &&& d[24] == note.recipient.inputs.num_values as Felt
            &&& d[25] == felt_of(note.assets.num_assets as int)
            &&& d.subrange(26, 26 + a) == note.assets.padded@
            &&& match n {
                InputNote::Authenticated { proof, .. } => {
                    &&& d.len() == 37 + a
                    &&& d[26 + a] == ONE
                    &&& d[27 + a] == proof.block_num as Felt
                    &&& d.subrange(28 + a, 32 + a) == block_for(tx, proof.block_num).sub_commitment.elements()
                    &&& d.subrange(32 + a, 36 + a) == block_for(tx, proof.block_num).note_root.elements()
                    &&& d[36 + a] == proof.node_index_in_block as Felt
                },
                InputNote::Unauthenticated { .. } => {
                    &&& d.len() == 27 + a
                    &&& d[26 + a] == ZERO
                },
            }
        }),
{
    let note = *n.spec_note();
    let d = note_data(tx, n);
    let a = note.assets.padded@.len() as int;
    assert(d.subrange(0, 4) =~= note.recipient.serial_num.elements());
    assert(d.subrange(4, 8) =~= note.recipient.script_root.elements());
    assert(d.subrange(8, 12) =~= note.recipient.inputs.commitment.elements());
    assert(d.subrange(12, 16) =~= note.assets.commitment.elements());
    assert(d.subrange(16, 20) =~= note_arg(tx.tx_args, note.id).elements());
    assert(d.subrange(20, 24) =~= note.metadata.elements());
    assert(d.subrange(26, 26 + a) =~= note.assets.padded@);
    match n {
        InputNote::Authenticated { proof, .. } => {
            let b = block_for(tx, proof.block_num);
            assert(d.subrange(28 + a, 32 + a) =~= b.sub_commitment.elements());
            assert(d.subrange(32 + a, 36 + a) =~= b.note_root.elements());
        },
        InputNote::Unauthenticated { .. } => {},
    }
}

/// The block that an authenticated note names is the reference block where the numbers agree,
/// and otherwise the kept block of the chain with that number.
pub proof fn lemma_block_for(tx: TransactionInputs, num: u32)
    requires
        tx_inputs_wf(tx),
    ensures
        num == tx.block_header.block_num ==> block_for(tx, num) == tx.block_header,
        forall|j: int| 0 <= j < tx.blockchain.blocks@.len() && num != tx.block_header.block_num
            && (#[trigger] tx.blockchain.blocks@[j]).block_num == num
            ==> block_for(tx, num) == tx.blockchain.blocks@[j],
{
    let blocks = tx.blockchain.blocks@;
    assert forall|j: int| 0 <= j < blocks.len() && num != tx.block_header.block_num
        && (#[trigger] blocks[j]).block_num == num implies block_for(tx, num) == blocks[j] by {
        assert(chain_has_block(tx.blockchain, num));
        let i = choose|i: int| 0 <= i < blocks.len() && (#[trigger] blocks[i]).block_num == num;
        if i < j {
            assert(blocks[i].block_num != blocks[j].block_num);
        } else if j < i {
            assert(blocks[j].block_num != blocks[i].block_num);
        }
    }
}

/// The argument of a note is the one registered under its identifier, compared by canonical
/// elements, and the zero word where none is.
pub proof fn lemma_note_arg(args: TransactionArgs, id: Word)
    ensures
        args.note_args.as_map().contains_key(canonical_word(id))
            ==> note_arg(args, id) == args.note_args.as_map()[canonical_word(id)],
        !args.note_args.as_map().contains_key(canonical_word(id)) ==> note_arg(args, id) == Word(0, 0, 0, 0),
{
}

/// The elements of key-value pairs take eight per pair: pair `j` gives elements `8 j .. 8 j + 8`,
/// its key's four elements then its value's.
pub proof fn lemma_entries_elements_layout(es: Seq<(Word, Word)>)
    ensures
        entries_elements(es).len() == 8 * es.len(),
        forall|j: int| 0 <= j < es.len() ==> entries_elements(es).subrange(8 * j, 8 * j + 4) == (#[trigger] es[j]).0.elements()
            && entries_elements(es).subrange(8 * j + 4, 8 * j + 8) == es[j].1.elements(),
    decreases es.len(),
{
    if es.len() > 0 {
        let p = es.drop_last();
        lemma_entries_elements_layout(p);
        let e = entries_elements(es);
        let n = es.len() - 1;
        assert(e == entries_elements(p) + es.last().0.elements() + es.last().1.elements());
        assert forall|j: int| 0 <= j < es.len() implies e.subrange(8 * j, 8 * j + 4) == (#[trigger] es[j]).0.elements()
            && e.subrange(8 * j + 4, 8 * j + 8) == es[j].1.elements() by {
            if j < n {
                assert(p[j] == es[j]);
                assert(e.subrange(8 * j, 8 * j + 4) =~= entries_elements(p).subrange(8 * j, 8 * j + 4));
                assert(e.subrange(8 * j + 4, 8 * j + 8) =~= entries_elements(p).subrange(8 * j + 4, 8 * j + 8));
            } else {
                assert(e.subrange(8 * j, 8 * j + 4) =~= es[j].0.elements());
                assert(e.subrange(8 * j + 4, 8 * j + 8) =~= es[j].1.elements());
            }
        }
    }
}

/// The elements of words take four per word: word `j` gives elements `4 j .. 4 j + 4`.
pub proof fn lemma_words_elements_layout(ws: Seq<Word>)
    ensures
        words_elements(ws).len() == 4 * ws.len(),
        forall|j: int| 0 <= j < ws.len() ==> words_elements(ws).subrange(4 * j, 4 * j + 4) == (#[trigger] ws[j]).elements(),
    decreases ws.len(),
{
    if ws.len() > 0 {
        let p = ws.drop_last();
        lemma_words_elements_layout(p);
        let e = words_elements(ws);
        let n = ws.len() - 1;
        assert forall|j: int| 0 <= j < ws.len() implies e.subrange(4 * j, 4 * j + 4) == (#[trigger] ws[j]).elements() by {
            if j < n {
                assert(p[j] == ws[j]);
                assert(e.subrange(4 * j, 4 * j + 4) =~= words_elements(p).subrange(4 * j, 4 * j + 4));
            } else {
                assert(e.subrange(4 * j, 4 * j + 4) =~= ws[j].elements());
            }
        }
    }
}

/// The chain adds one leaf per kept block, in order: the block's number as its position, and its
/// commitment.
pub proof fn lemma_block_leaves(bs: Seq<BlockHeader>)
    ensures
        block_leaves(bs).len() == bs.len(),
        forall|j: int| 0 <= j < bs.len() ==> #[trigger] block_leaves(bs)[j] == (bs[j].block_num as usize, bs[j].commitment),
{
}

/// The chain adds one map entry: the sequential hash of the padded peaks, mapped to the number
/// of leaves and three zeros, then the padded peaks; the peaks stand first in them, word by
/// word, and zeros after.
pub proof fn lemma_chain_entries(bc: PartialBlockchain)
    ensures
        chain_entries(bc).len() == 1,
        chain_entries(bc)[0].0 == poseidon2_hash_elements(padded_peaks(bc.mmr.peaks@)),
        chain_entries(bc)[0].1.subrange(0, 4) == seq![felt_of(bc.mmr.forest as int), ZERO, ZERO, ZERO],
        chain_entries(bc)[0].1.subrange(4, chain_entries(bc)[0].1.len() as int) == padded_peaks(bc.mmr.peaks@),
        forall|j: int| 0 <= j < bc.mmr.peaks@.len() ==>
            chain_entries(bc)[0].1.subrange(4 + 4 * j, 8 + 4 * j) == (#[trigger] bc.mmr.peaks@[j]).elements(),
        forall|i: int| 4 + 4 * bc.mmr.peaks@.len() <= i < chain_entries(bc)[0].1.len() ==> #[trigger] chain_entries(bc)[0].1[i] == ZERO,
{
    let v = chain_entries(bc)[0].1;
    let pp = padded_peaks(bc.mmr.peaks@);
    let peaks = bc.mmr.peaks@;
    assert(v.subrange(0, 4) =~= seq![felt_of(bc.mmr.forest as int), ZERO, ZERO, ZERO]);
    assert(v.subrange(4, v.len() as int) =~= pp);
    lemma_padded_peaks_shape(peaks);
    lemma_words_elements_layout(peaks);
    assert forall|j: int| 0 <= j < peaks.len() implies v.subrange(4 + 4 * j, 8 + 4 * j) == (#[trigger] peaks[j]).elements() by {
        assert(v.subrange(4 + 4 * j, 8 + 4 * j) =~= words_elements(peaks).subrange(4 * j, 4 * j + 4));
    }
    assert forall|i: int| 4 + 4 * peaks.len() <= i < v.len() implies #[trigger] v[i] == ZERO by {
        assert(v[i] == pp[i - 4]);
    }
}

/// The elements of a leaf: none for an empty leaf, the key's then the value's for a leaf of one
/// pair, and those of each pair in turn for a leaf of several.
pub proof fn lemma_leaf_elements(leaf: SmtLeaf)
    ensures
        leaf is Empty ==> leaf_elements(leaf) == Seq::<Felt>::empty(),
        leaf matches SmtLeaf::Single(k, v) ==> leaf_elements(leaf) == k.elements() + v.elements(),
        leaf matches SmtLeaf::Multiple(es) ==> leaf_elements(leaf) == entries_elements(es@),
{
    match leaf {
        SmtLeaf::Single(k, v) => {
            let e = seq![(k, v)];
            assert(e.drop_last() =~= Seq::<(Word, Word)>::empty());
            assert(leaf_entries(leaf) == e);
            assert(entries_elements(e.drop_last()) == Seq::<Felt>::empty());
            assert(entries_elements(e) == entries_elements(e.drop_last()) + e.last().0.elements() + e.last().1.elements());
            assert(leaf_elements(leaf) =~= k.elements() + v.elements());
        },
        _ => {},
    }
}

/// Each leaf gives one map entry, in order: its hash, mapped to its elements.
pub proof fn lemma_leaves_entries(ls: Seq<SmtLeaf>)
    ensures
        leaves_entries(ls).len() == ls.len(),
        forall|j: int| 0 <= j < ls.len() ==> #[trigger] leaves_entries(ls)[j] == (smt_leaf_hash(ls[j]), leaf_elements(ls[j])),
{
}

/// An account adds, in order: its code commitment mapped to its procedures, its storage
/// commitment mapped to its slots, each leaf of its storage maps and then each leaf of its
/// vault, hash mapped to elements; and, into the Merkle store, the inner nodes of its storage
/// maps and then those of its vault.
pub proof fn lemma_account_entries(a: PartialAccount)
    ensures
        account_entries(a).len() == 2 + a.storage.leaves@.len() + a.vault.leaves@.len(),
        account_entries(a)[0] == (a.code.commitment, a.code.elements@),
        account_entries(a)[1] == (a.storage.header.commitment, a.storage.header.elements@),
        forall|j: int| 0 <= j < a.storage.leaves@.len() ==> account_entries(a)[2 + j]
            == (smt_leaf_hash(#[trigger] a.storage.leaves@[j]), leaf_elements(a.storage.leaves@[j])),
        forall|j: int| 0 <= j < a.vault.leaves@.len() ==> account_entries(a)[2 + a.storage.leaves@.len() + j]
            == (smt_leaf_hash(#[trigger] a.vault.leaves@[j]), leaf_elements(a.vault.leaves@[j])),
        account_nodes(a) == a.storage.inner_nodes@ + a.vault.inner_nodes@,
{
    let e = account_entries(a);
    let sl = a.storage.leaves@.len() as int;
    assert forall|j: int| 0 <= j < sl implies e[2 + j]
        == (smt_leaf_hash(#[trigger] a.storage.leaves@[j]), leaf_elements(a.storage.leaves@[j])) by {
        assert(leaves_entries(a.storage.leaves@)[j] == leaf_entry(a.storage.leaves@[j]));
    }
    assert forall|j: int| 0 <= j < a.vault.leaves@.len() implies e[2 + sl + j]
        == (smt_leaf_hash(#[trigger] a.vault.leaves@[j]), leaf_elements(a.vault.leaves@[j])) by {
        assert(leaves_entries(a.vault.leaves@)[j] == leaf_entry(a.vault.leaves@[j]));
    }
}

/// A native account with a seed adds its seed under its identifier's key `[0, 0, suffix,
/// prefix]`; one without adds nothing.
pub proof fn lemma_seed_entries(a: PartialAccount)
    ensures
        a.seed matches Some(s) ==> seed_entries(a) == seq![(Word(ZERO, ZERO, a.id.suffix, a.id.prefix), s.elements())],
        a.seed is None ==> seed_entries(a).len() == 0,
{
}

/// A new account adds one map entry per storage map, in order: the map's root, mapped to the
/// elements of its key-value pairs, eight per pair; an existing account adds none.
pub proof fn lemma_new_account_entries(a: PartialAccount)
    ensures
        a.is_new ==> new_account_entries(a).len() == a.storage.maps@.len(),
        a.is_new ==> forall|j: int| 0 <= j < a.storage.maps@.len() ==>
            #[trigger] new_account_entries(a)[j] == (a.storage.maps@[j].root, entries_elements(a.storage.maps@[j].entries@)),
        !a.is_new ==> new_account_entries(a).len() == 0,
{
}

/// Each asset witness adds one map entry, in order: its leaf's hash, mapped to the leaf's
/// elements; and, after those of the witnesses before it, the inner nodes of its path from its
/// leaf's hash at its position.
pub proof fn lemma_assets(ws: Seq<AssetWitness>, w: AssetWitness)
    ensures
        assets_entries(ws).len() == ws.len(),
        forall|j: int| 0 <= j < ws.len() ==> #[trigger] assets_entries(ws)[j] == (smt_leaf_hash(ws[j].leaf), leaf_elements(ws[j].leaf)),
        assets_nodes(Seq::empty()) == Seq::<InnerNode>::empty(),
        assets_nodes(ws.push(w)) == assets_nodes(ws) + merkle_path_nodes(w.path@, w.leaf_index, smt_leaf_hash(w.leaf)),
{
    assert(ws.push(w).drop_last() =~= ws);
}

/// An account's header as field elements: its identifier and nonce, its vault root, its storage
/// commitment and its code commitment, a word each.
pub proof fn lemma_account_header_layout(a: PartialAccount)
    ensures
        account_header_elements(a).len() == 16,
        account_header_elements(a).subrange(0, 4) == a.id_and_nonce.elements(),
        account_header_elements(a).subrange(4, 8) == a.vault.root.elements(),
        account_header_elements(a).subrange(8, 12) == a.storage.commitment.elements(),
        account_header_elements(a).subrange(12, 16) == a.code.commitment.elements(),
{
    let h = account_header_elements(a);
    assert(h.subrange(0, 4) =~= a.id_and_nonce.elements());
    assert(h.subrange(4, 8) =~= a.vault.root.elements());
    assert(h.subrange(8, 12) =~= a.storage.commitment.elements());
    assert(h.subrange(12, 16) =~= a.code.commitment.elements());
}

/// A foreign account adds its account entries, then its witness leaf's hash mapped to the leaf's
/// elements, then its header under its identifier's key `[0, 0, suffix, prefix]`.
pub proof fn lemma_foreign_account_entries(f: AccountInputs)
    ensures
        ({
            let e = foreign_account_entries(f);
            let n = account_entries(f.account).len() as int;
            &&& e.len() == n + 2
            &&& e.subrange(0, n) == account_entries(f.account)
            &&& e[n] == (smt_leaf_hash(f.witness.leaf), leaf_elements(f.witness.leaf))
            &&& e[n + 1] == (Word(ZERO, ZERO, f.account.id.suffix, f.account.id.prefix), account_header_elements(f.account))
        }),
{
    let e = foreign_account_entries(f);
    let n = account_entries(f.account).len() as int;
    assert(e.subrange(0, n) =~= account_entries(f.account));
}

/// Foreign accounts add their entries and nodes one account after the other: each account,
/// whichever its place, adds its entries after those of the accounts before it, and its nodes
/// (those of its storage maps and vault, then its witness's path from its leaf's hash) after
/// theirs.
pub proof fn lemma_foreign_accounts(fs: Seq<AccountInputs>, f: AccountInputs)
    ensures
        foreign_entries(Seq::empty()).len() == 0,
        foreign_nodes(Seq::empty()).len() == 0,
        foreign_entries(fs.push(f)) == foreign_entries(fs) + foreign_account_entries(f),
        foreign_nodes(fs.push(f)) == foreign_nodes(fs) + (f.account.storage.inner_nodes@ + f.account.vault.inner_nodes@)
            + merkle_path_nodes(f.witness.path@, f.witness.leaf_index, smt_leaf_hash(f.witness.leaf)),
{
    assert(fs.push(f).drop_last() =~= fs);
}

/// The input notes add their data, entries and nodes one note after the other: each note,
/// whichever its place, adds its data after that of the notes before it, and likewise its
/// entries and nodes.
pub proof fn lemma_notes(tx: TransactionInputs, ns: Seq<InputNote>, n: InputNote)
    ensures
        notes_data(tx, Seq::empty()).len() == 0,
        notes_entries(Seq::empty()).len() == 0,
        notes_nodes(Seq::empty()).len() == 0,
        notes_data(tx, ns.push(n)) == notes_data(tx, ns) + note_data(tx, n),
        notes_entries(ns.push(n)) == notes_entries(ns) + note_entries(n),
        notes_nodes(ns.push(n)) == notes_nodes(ns) + note_nodes(n),
{
    assert(ns.push(n).drop_last() =~= ns);
}

/// A note adds its inputs commitment mapped to its input values, its assets commitment mapped
/// to its padded assets, then the advice map entries of its script's MAST forest; an
/// authenticated note adds the inner nodes of its path from its commitment at its index in the
/// block's note tree, another note none.
pub proof fn lemma_note_entries(n: InputNote)
    ensures
        ({
            let note = *n.spec_note();
            let e = note_entries(n);
            &&& e.len() == 2 + note.recipient.script_advice_map@.len()
            &&& e[0] == (note.recipient.inputs.commitment, note.recipient.inputs.values@)
            &&& e[1] == (note.assets.commitment, note.assets.padded@)
            &&& e.subrange(2, e.len() as int) == entries_view(note.recipient.script_advice_map@)
        }),
        n matches InputNote::Authenticated { note, proof } ==> note_nodes(n)
            == merkle_path_nodes(proof.path@, proof.node_index_in_block as u64, note.commitment),
        n is Unauthenticated ==> note_nodes(n).len() == 0,
{
    let e = note_entries(n);
    assert(e.subrange(2, e.len() as int) =~= entries_view(n.spec_note().recipient.script_advice_map@));
}

/// The input notes add nothing where there is none; otherwise the entries of each note, in
/// order, and last the notes' commitment mapped to the data of all notes.
pub proof fn lemma_input_notes_entries(tx: TransactionInputs)
    ensures
        tx.input_notes.notes@.len() == 0 ==> input_notes_entries(tx).len() == 0,
        tx.input_notes.notes@.len() > 0 ==> input_notes_entries(tx)
            == notes_entries(tx.input_notes.notes@).push((tx.input_notes.commitment, notes_data(tx, tx.input_notes.notes@))),
{
    if tx.input_notes.notes@.len() > 0 {
        assert(input_notes_entries(tx)
            =~= notes_entries(tx.input_notes.notes@).push((tx.input_notes.commitment, notes_data(tx, tx.input_notes.notes@))));
    }
}

/// The kernel adds its commitment mapped to its procedure roots; the script adds the entries of
/// its MAST forest's advice map, in order, and nothing where there is no script.
pub proof fn lemma_kernel_and_script_entries(k: TransactionKernel, args: TransactionArgs)
    ensures
        kernel_entries(k) == seq![(k.commitment, k.elements@)],
        args.tx_script matches Some(s) ==> script_entries(args) == entries_view(s.advice_map@),
        args.tx_script is None ==> script_entries(args).len() == 0,
{
}

/// A transaction adds its map entries in the order in which the original inserts them: the
/// kernel's, the chain's, the input notes', the script's, the native account's, its seed's, its
/// storage maps' where it is new, and the asset witnesses'; and its Merkle nodes: the chain's
/// paths, the notes' paths, the account's nodes and the asset witnesses' paths.
pub proof fn lemma_tx_entries_order(tx: TransactionInputs, k: TransactionKernel)
    ensures
        tx_map_entries(tx, k) == kernel_entries(k) + chain_entries(tx.blockchain) + input_notes_entries(tx)
            + script_entries(tx.tx_args) + account_entries(tx.account) + seed_entries(tx.account)
            + new_account_entries(tx.account) + assets_entries(tx.asset_witnesses@),
        tx_store_nodes(tx) == chain_nodes(tx.blockchain, tx.block_header.commitment)
            + notes_nodes(tx.input_notes.notes@) + account_nodes(tx.account) + assets_nodes(tx.asset_witnesses@),
        tx_map_entries(tx, k)[0] == (k.commitment, k.elements@),
        tx_map_entries(tx, k)[1] == chain_entries(tx.blockchain)[0],
{
}

/// The chain adds the authentication paths of every kept block, at the block's number, twice:
/// first in its mountain range as given, then in that range once the reference block has been
/// appended to it (its nodes, followed by the nodes that appending inserts).
pub proof fn lemma_chain_nodes(bc: PartialBlockchain, ref_commitment: Word)
    ensures
        chain_nodes(bc, ref_commitment)
            == mmr_inner_nodes(bc.mmr.nodes@, block_leaves(bc.blocks@))
            + mmr_inner_nodes(
                bc.mmr.nodes@ + mmr_added_nodes(bc.mmr.forest, bc.mmr.peaks@, bc.mmr.nodes@, bc.mmr.kept_leaves@, ref_commitment),
                block_leaves(bc.blocks@),
            ),
{
}

/// Each inner node gives one store entry, in order: its value, mapped to its two children, as
/// canonical words.
pub proof fn lemma_node_entries(ns: Seq<InnerNode>)
    ensures
        node_entries(ns).len() == ns.len(),
        forall|j: int| 0 <= j < ns.len() ==> #[trigger] node_entries(ns)[j]
            == (canonical_word(ns[j].value), StoreNode { left: canonical_word(ns[j].left), right: canonical_word(ns[j].right) }),
{
}

} // verus!
