//! The advice inputs of a transaction: what the transaction kernel reads from the advice
//! provider while it runs, laid out as the kernel expects it.

use vstd::prelude::*;

use crate::advice::{append_felts, canonical_entry, copy_felts, entries_view, insert_entries, lemma_insert_entries_concat, lemma_insert_entries_push, AdviceInputs, AdviceInputsView};
use crate::inputs::{AccountId, AccountInputs, AccountWitness, AssetWitness, BlockHeader, InputNote, Note, PartialAccount, PartialBlockchain, StorageMap, TransactionArgs, TransactionInputs, TransactionKernel};
use crate::merkle::{authenticated_nodes, entries_elements, entries_to_elements, hash_leaf, merkle_path_nodes, path_fits, path_fits_index, leaf_elements, node_entries, smt_leaf_hash, InnerNode, SmtLeaf, StoreNode};
use crate::mmr::{lemma_count_ones_le, flatten_and_pad_peaks, hash_mmr_peaks, mmr_added_nodes, mmr_inner_nodes, padded_peaks, poseidon2_hash_elements, partial_mmr_add, partial_mmr_inner_nodes};
use crate::word::{canonical_felts, canonical_word, felt_from_u64, felt_of, Felt, Word, ONE, ZERO};
use crate::word_map::{insert_all, lemma_insert_all_concat};

verus! {

// SPECIFICATION OF THE LAYOUT
// ================================================================================================

/// The advice map key under which the seed of a native account, or the header of a foreign
/// account, is stored: `[0, 0, suffix, prefix]`.
pub open spec fn account_id_key(id: AccountId) -> Word {
    Word(ZERO, ZERO, id.suffix, id.prefix)
}

/// The root of the transaction script, or the empty word where there is none.
pub open spec fn script_root(args: TransactionArgs) -> Word {
    match args.tx_script {
        Some(s) => s.root,
        None => Word(ZERO, ZERO, ZERO, ZERO),
    }
}

/// The block header data that the transaction kernel reads from the advice stack.
pub open spec fn block_stack(h: BlockHeader) -> Seq<Felt> {
    h.prev_block_commitment.elements()
        + h.chain_commitment.elements()
        + h.account_root.elements()
        + h.nullifier_root.elements()
        + h.tx_commitment.elements()
        + h.tx_kernel_commitment.elements()
        + h.validator_key_commitment.elements()
        + seq![h.block_num as Felt, h.version as Felt, h.timestamp as Felt, ZERO]
        + seq![h.native_asset_id.suffix, h.native_asset_id.prefix, h.verification_base_fee as Felt, ZERO]
        + seq![ZERO, ZERO, ZERO, ZERO]
        + h.note_root.elements()
}

/// The account data that the transaction kernel reads from the advice stack.
pub open spec fn account_stack(a: PartialAccount) -> Seq<Felt> {
    seq![a.nonce, ZERO, a.id.suffix, a.id.prefix]
        + a.vault.root.elements()
        + a.storage.commitment.elements()
        + a.code.commitment.elements()
}

/// The number of input notes, the script root, the script arguments and the authentication
/// arguments, as the transaction kernel reads them from the advice stack.
pub open spec fn args_stack(tx: TransactionInputs) -> Seq<Felt> {
    seq![felt_of(tx.input_notes.notes@.len() as int)]
        + script_root(tx.tx_args).elements()
        + tx.tx_args.tx_script_args.elements()
        + tx.tx_args.auth_args.elements()
}

/// Everything that the transaction puts on the advice stack, in order: the block data, the
/// kernel version, the account data, and the notes count, script root and arguments.
pub open spec fn tx_stack(tx: TransactionInputs, kernel: TransactionKernel) -> Seq<Felt> {
    block_stack(tx.block_header) + seq![kernel.version as Felt] + account_stack(tx.account) + args_stack(tx)
}

/// The kernel's map entry: its commitment, mapped to its procedure roots.
pub open spec fn kernel_entries(k: TransactionKernel) -> Seq<(Word, Seq<Felt>)> {
    seq![(k.commitment, k.elements@)]
}

/// The leaves of the chain's Merkle mountain range that the blocks stand at.
pub open spec fn block_leaves(blocks: Seq<BlockHeader>) -> Seq<(usize, Word)> {
    blocks.map_values(|b: BlockHeader| (b.block_num as usize, b.commitment))
}

/// The chain's map entry: the sequential hash of the padded peaks, mapped to the number of
/// leaves followed by the padded peaks.
pub open spec fn chain_entries(bc: PartialBlockchain) -> Seq<(Word, Seq<Felt>)> {
    seq![(
        poseidon2_hash_elements(padded_peaks(bc.mmr.peaks@)),
        seq![felt_of(bc.mmr.forest as int), ZERO, ZERO, ZERO] + padded_peaks(bc.mmr.peaks@),
    )]
}

/// The nodes of the chain's mountain range once the reference block has been appended to it:
/// its nodes, then those that appending the block inserts.
pub open spec fn nodes_with_ref(bc: PartialBlockchain, ref_commitment: Word) -> Seq<(usize, Word)> {
    bc.mmr.nodes@ + mmr_added_nodes(bc.mmr.forest, bc.mmr.peaks@, bc.mmr.nodes@, bc.mmr.kept_leaves@, ref_commitment)
}

/// The chain's Merkle nodes: the authentication paths of the kept blocks, then those paths once
/// the reference block has been appended to the mountain range.
pub open spec fn chain_nodes(bc: PartialBlockchain, ref_commitment: Word) -> Seq<InnerNode> {
    mmr_inner_nodes(bc.mmr.nodes@, block_leaves(bc.blocks@))
        + mmr_inner_nodes(nodes_with_ref(bc, ref_commitment), block_leaves(bc.blocks@))
}

/// The argument of the note with identifier `id`, or the empty word where it has none.
pub open spec fn note_arg(args: TransactionArgs, id: Word) -> Word {
    if args.note_args.as_map().contains_key(canonical_word(id)) {
        args.note_args.as_map()[canonical_word(id)]
    } else {
        Word(ZERO, ZERO, ZERO, ZERO)
    }
}

/// Whether some kept block of the chain has the number `num`.
pub open spec fn chain_has_block(bc: PartialBlockchain, num: u32) -> bool {
    exists|j: int| 0 <= j < bc.blocks@.len() && (#[trigger] bc.blocks@[j]).block_num == num
}

/// The header of block `num`: the reference block's, or that of the kept block with that number.
pub open spec fn block_for(tx: TransactionInputs, num: u32) -> BlockHeader {
    if num == tx.block_header.block_num {
        tx.block_header
    } else {
        let j = choose|j: int| 0 <= j < tx.blockchain.blocks@.len() && (#[trigger] tx.blockchain.blocks@[j]).block_num == num;
        tx.blockchain.blocks@[j]
    }
}

/// The data of a note that does not depend on its authentication: its details, argument,
/// metadata, the counts of its inputs and assets, and its padded assets.
pub open spec fn note_details(tx: TransactionInputs, note: Note) -> Seq<Felt> {
    note.recipient.serial_num.elements()
        + note.recipient.script_root.elements()
        + note.recipient.inputs.commitment.elements()
        + note.assets.commitment.elements()
        + note_arg(tx.tx_args, note.id).elements()
        + note.metadata.elements()
        + seq![note.recipient.inputs.num_values as Felt, felt_of(note.assets.num_assets as int)]
        + note.assets.padded@
}

/// The data of a note's authentication: for an authenticated note, the flag one, the block
/// number, the block's sub-commitment and note root, and the note's index in the block; for
/// another note, the flag zero.
pub open spec fn note_auth_data(tx: TransactionInputs, n: InputNote) -> Seq<Felt> {
    match n {
        InputNote::Authenticated { proof, .. } => {
            let b = block_for(tx, proof.block_num);
            seq![ONE, proof.block_num as Felt]
                + b.sub_commitment.elements()
                + b.note_root.elements()
                + seq![proof.node_index_in_block as Felt]
        },
        InputNote::Unauthenticated { .. } => seq![ZERO],
    }
}

/// The data that the kernel reads for one input note.
pub open spec fn note_data(tx: TransactionInputs, n: InputNote) -> Seq<Felt> {
    note_details(tx, *n.spec_note()) + note_auth_data(tx, n)
}

/// The data of the first notes of `notes`, one note after the other.
pub open spec fn notes_data(tx: TransactionInputs, notes: Seq<InputNote>) -> Seq<Felt>
    decreases notes.len(),
{
    if notes.len() == 0 {
        Seq::empty()
    } else {
        notes_data(tx, notes.drop_last()) + note_data(tx, notes.last())
    }
}

/// The map entries of one note: its inputs commitment mapped to the input values, its assets
/// commitment mapped to the padded assets, then the advice map entries of its script's MAST
/// forest.
pub open spec fn note_entries(n: InputNote) -> Seq<(Word, Seq<Felt>)> {
    let note = *n.spec_note();
    seq![
        (note.recipient.inputs.commitment, note.recipient.inputs.values@),
        (note.assets.commitment, note.assets.padded@),
    ] + entries_view(note.recipient.script_advice_map@)
}

/// The map entries of the notes, one note after the other.
pub open spec fn notes_entries(notes: Seq<InputNote>) -> Seq<(Word, Seq<Felt>)>
    decreases notes.len(),
{
    if notes.len() == 0 {
        Seq::empty()
    } else {
        notes_entries(notes.drop_last()) + note_entries(notes.last())
    }
}

/// The Merkle nodes of a note: the path of an authenticated note in its block's note tree.
pub open spec fn note_nodes(n: InputNote) -> Seq<InnerNode> {
    match n {
        InputNote::Authenticated { note, proof } => merkle_path_nodes(proof.path@, proof.node_index_in_block as u64, note.commitment),
        InputNote::Unauthenticated { .. } => Seq::empty(),
    }
}

/// The Merkle nodes of the notes, one note after the other.
pub open spec fn notes_nodes(notes: Seq<InputNote>) -> Seq<InnerNode>
    decreases notes.len(),
{
    if notes.len() == 0 {
        Seq::empty()
    } else {
        notes_nodes(notes.drop_last()) + note_nodes(notes.last())
    }
}

/// The map entries of the input notes: those of each note, then the notes' commitment mapped
/// to the data of all notes. There are none where there is no input note.
pub open spec fn input_notes_entries(tx: TransactionInputs) -> Seq<(Word, Seq<Felt>)> {
    let notes = tx.input_notes.notes@;
    if notes.len() == 0 {
        Seq::empty()
    } else {
        notes_entries(notes) + seq![(tx.input_notes.commitment, notes_data(tx, notes))]
    }
}

/// The map entries of the transaction script's MAST forest, if there is a script.
pub open spec fn script_entries(args: TransactionArgs) -> Seq<(Word, Seq<Felt>)> {
    match args.tx_script {
        Some(s) => entries_view(s.advice_map@),
        None => Seq::empty(),
    }
}

/// The map entry of a sparse Merkle tree leaf: its hash, mapped to its elements.
pub open spec fn leaf_entry(leaf: SmtLeaf) -> (Word, Seq<Felt>) {
    (smt_leaf_hash(leaf), leaf_elements(leaf))
}

/// The map entries of leaves, in order.
pub open spec fn leaves_entries(leaves: Seq<SmtLeaf>) -> Seq<(Word, Seq<Felt>)> {
    leaves.map_values(|l: SmtLeaf| leaf_entry(l))
}

/// The map entries of an account: its code commitment mapped to its procedures, its storage
/// commitment mapped to its slots, then the leaves of its storage maps and of its vault.
pub open spec fn account_entries(a: PartialAccount) -> Seq<(Word, Seq<Felt>)> {
    seq![(a.code.commitment, a.code.elements@), (a.storage.header.commitment, a.storage.header.elements@)]
        + leaves_entries(a.storage.leaves@)
        + leaves_entries(a.vault.leaves@)
}

/// The Merkle nodes of an account: those of its storage maps, then those of its vault.
pub open spec fn account_nodes(a: PartialAccount) -> Seq<InnerNode> {
    a.storage.inner_nodes@ + a.vault.inner_nodes@
}

/// The map entry of a native account's seed, if it has one.
pub open spec fn seed_entries(a: PartialAccount) -> Seq<(Word, Seq<Felt>)> {
    match a.seed {
        Some(s) => seq![(account_id_key(a.id), s.elements())],
        None => Seq::empty(),
    }
}

/// The map entry of a storage map: its root, mapped to its keys and values.
pub open spec fn storage_map_entry(m: StorageMap) -> (Word, Seq<Felt>) {
    (m.root, entries_elements(m.entries@))
}

/// The map entries of the storage maps of a new account; none for an existing account.
pub open spec fn new_account_entries(a: PartialAccount) -> Seq<(Word, Seq<Felt>)> {
    if a.is_new {
        a.storage.maps@.map_values(|m: StorageMap| storage_map_entry(m))
    } else {
        Seq::empty()
    }
}

/// The map entries of the asset witnesses: each leaf's hash, mapped to its elements.
pub open spec fn assets_entries(ws: Seq<AssetWitness>) -> Seq<(Word, Seq<Felt>)> {
    ws.map_values(|w: AssetWitness| leaf_entry(w.leaf))
}

/// The inner nodes of an account witness's path, from its leaf's hash up to the root.
pub open spec fn account_witness_nodes(w: AccountWitness) -> Seq<InnerNode> {
    merkle_path_nodes(w.path@, w.leaf_index, smt_leaf_hash(w.leaf))
}

/// The inner nodes of an asset witness's path, from its leaf's hash up to the root.
pub open spec fn asset_witness_nodes(w: AssetWitness) -> Seq<InnerNode> {
    merkle_path_nodes(w.path@, w.leaf_index, smt_leaf_hash(w.leaf))
}

/// The Merkle nodes of the asset witnesses, one witness after the other.
pub open spec fn assets_nodes(ws: Seq<AssetWitness>) -> Seq<InnerNode>
    decreases ws.len(),
{
    if ws.len() == 0 {
        Seq::empty()
    } else {
        assets_nodes(ws.drop_last()) + asset_witness_nodes(ws.last())
    }
}

/// The map entries of the first `n` storage maps of an account.
pub open spec fn new_account_entries_upto(a: PartialAccount, n: int) -> Seq<(Word, Seq<Felt>)> {
    a.storage.maps@.take(n).map_values(|m: StorageMap| storage_map_entry(m))
}

/// The stack of the advice inputs of a transaction once the transaction data is on it.
pub open spec fn old_stack_of(tx: TransactionInputs, kernel: TransactionKernel) -> Seq<Felt> {
    tx.advice_inputs@.stack + tx_stack(tx, kernel)
}

/// Every map entry that the transaction adds, in order.
pub open spec fn tx_map_entries(tx: TransactionInputs, kernel: TransactionKernel) -> Seq<(Word, Seq<Felt>)> {
    kernel_entries(kernel)
        + chain_entries(tx.blockchain)
        + input_notes_entries(tx)
        + script_entries(tx.tx_args)
        + account_entries(tx.account)
        + seed_entries(tx.account)
        + new_account_entries(tx.account)
        + assets_entries(tx.asset_witnesses@)
}

/// Every Merkle node that the transaction adds, in order.
pub open spec fn tx_store_nodes(tx: TransactionInputs) -> Seq<InnerNode> {
    chain_nodes(tx.blockchain, tx.block_header.commitment)
        + notes_nodes(tx.input_notes.notes@)
        + account_nodes(tx.account)
        + assets_nodes(tx.asset_witnesses@)
}

/// An account's header as field elements: its identifier and nonce, its vault root, its storage
/// commitment and its code commitment.
pub open spec fn account_header_elements(a: PartialAccount) -> Seq<Felt> {
    a.id_and_nonce.elements() + a.vault.root.elements() + a.storage.commitment.elements()
        + a.code.commitment.elements()
}

/// The map entries of one foreign account: its own entries, its witness leaf's hash mapped to
/// the leaf's elements, and its identifier's key mapped to its header.
pub open spec fn foreign_account_entries(f: AccountInputs) -> Seq<(Word, Seq<Felt>)> {
    account_entries(f.account)
        + seq![leaf_entry(f.witness.leaf)]
        + seq![(account_id_key(f.account.id), account_header_elements(f.account))]
}

/// The map entries of foreign accounts, one account after the other.
pub open spec fn foreign_entries(fs: Seq<AccountInputs>) -> Seq<(Word, Seq<Felt>)>
    decreases fs.len(),
{
    if fs.len() == 0 {
        Seq::empty()
    } else {
        foreign_entries(fs.drop_last()) + foreign_account_entries(fs.last())
    }
}

/// The Merkle nodes of foreign accounts: each account's nodes, then its witness's path.
pub open spec fn foreign_nodes(fs: Seq<AccountInputs>) -> Seq<InnerNode>
    decreases fs.len(),
{
    if fs.len() == 0 {
        Seq::empty()
    } else {
        foreign_nodes(fs.drop_last()) + account_nodes(fs.last().account) + account_witness_nodes(fs.last().witness)
    }
}

/// The inputs from which a transaction's advice data can be laid out: the chain's mountain
/// range is consistent, its kept blocks stand inside it under distinct numbers, every
/// authenticated note was created in the reference block or in a kept block and its position
/// fits its path, and the position of each asset witness's leaf fits its path.
pub open spec fn tx_inputs_wf(tx: TransactionInputs) -> bool {
    let bc = tx.blockchain;
    &&& bc.mmr.wf()
    &&& forall|j: int| 0 <= j < bc.blocks@.len() ==> (#[trigger] bc.blocks@[j]).block_num < bc.mmr.forest
    &&& forall|i: int, j: int| 0 <= i < j < bc.blocks@.len() ==> bc.blocks@[i].block_num != bc.blocks@[j].block_num
    &&& forall|i: int| 0 <= i < tx.input_notes.notes@.len() ==> match #[trigger] tx.input_notes.notes@[i] {
        InputNote::Authenticated { proof, .. } => (proof.block_num == tx.block_header.block_num
            || chain_has_block(bc, proof.block_num))
            && path_fits(proof.path@, proof.node_index_in_block as u64),
        InputNote::Unauthenticated { .. } => true,
    }
    &&& forall|i: int| 0 <= i < tx.asset_witnesses@.len()
        ==> path_fits((#[trigger] tx.asset_witnesses@[i]).path@, tx.asset_witnesses@[i].leaf_index)
}

/// Whether the inputs are consistent, as `tx_inputs_wf` states.
pub fn tx_inputs_are_consistent(tx_inputs: &TransactionInputs) -> (b: bool)
    ensures
        b == tx_inputs_wf(*tx_inputs),
{
    let bc = &tx_inputs.blockchain;
    if !bc.mmr.is_valid() {
        return false;
    }
    let blocks = &bc.blocks;
    let n = blocks.len();
    let mut i: usize = 0;
    while i < n
        invariant
            n == blocks@.len(),
            blocks@ == tx_inputs.blockchain.blocks@,
            bc.mmr.forest == tx_inputs.blockchain.mmr.forest,
            i <= n,
            forall|j: int| 0 <= j < i ==> (#[trigger] blocks@[j]).block_num < bc.mmr.forest,
            forall|a: int, c: int| 0 <= a < c < i ==> blocks@[a].block_num != blocks@[c].block_num,
        decreases n - i,
    {
        if blocks[i].block_num as usize >= bc.mmr.forest {
            assert(blocks@[i as int].block_num >= bc.mmr.forest);
            return false;
        }
        let mut j: usize = 0;
        while j < i
            invariant
                n == blocks@.len(),
                blocks@ == tx_inputs.blockchain.blocks@,
                i < n,
                j <= i,
                forall|a: int| 0 <= a < j ==> blocks@[a].block_num != blocks@[i as int].block_num,
            decreases i - j,
        {
            if blocks[j].block_num == blocks[i].block_num {
                assert(tx_inputs.blockchain.blocks@[j as int].block_num == tx_inputs.blockchain.blocks@[i as int].block_num);
                return false;
            }
            j = j + 1;
        }
        i = i + 1;
    }
    let notes = &tx_inputs.input_notes.notes;
    let m = notes.len();
    let mut i: usize = 0;
    while i < m
        invariant
            m == notes@.len(),
            notes@ == tx_inputs.input_notes.notes@,
            n == blocks@.len(),
            blocks@ == tx_inputs.blockchain.blocks@,
            i <= m,
            forall|k: int| 0 <= k < i ==> match #[trigger] notes@[k] {
                InputNote::Authenticated { proof, .. } => (proof.block_num == tx_inputs.block_header.block_num
                    || chain_has_block(tx_inputs.blockchain, proof.block_num))
                    && path_fits(proof.path@, proof.node_index_in_block as u64),
                InputNote::Unauthenticated { .. } => true,
            },
        decreases m - i,
    {
        if let InputNote::Authenticated { proof, .. } = &notes[i] {
            if !path_fits_index(&proof.path, proof.node_index_in_block as u64) {
                assert(!tx_inputs_wf(*tx_inputs)) by {
                    assert(notes@[i as int] == notes[i as int]);
                }
                return false;
            }
            let num = proof.block_num;
            if num != tx_inputs.block_header.block_num {
                let mut j: usize = 0;
                let mut found = false;
                while j < n
                    invariant
                        n == blocks@.len(),
                        j <= n,
                        found ==> chain_has_block(tx_inputs.blockchain, num),
                        !found ==> forall|k: int| 0 <= k < j ==> (#[trigger] blocks@[k]).block_num != num,
                        blocks@ == tx_inputs.blockchain.blocks@,
                    decreases n - j,
                {
                    if blocks[j].block_num == num {
                        found = true;
                    }
                    j = j + 1;
                }
                if !found {
                    assert(!tx_inputs_wf(*tx_inputs)) by {
                        assert(notes@[i as int] == notes[i as int]);
                    }
                    return false;
                }
            }
        }
        i = i + 1;
    }
    let ws = &tx_inputs.asset_witnesses;
    let k = ws.len();
    let mut i: usize = 0;
    while i < k
        invariant
            k == ws@.len(),
            ws@ == tx_inputs.asset_witnesses@,
            i <= k,
            forall|j: int| 0 <= j < i ==> path_fits((#[trigger] ws@[j]).path@, ws@[j].leaf_index),
        decreases k - i,
    {
        if !path_fits_index(&ws[i].path, ws[i].leaf_index) {
            return false;
        }
        i = i + 1;
    }
    true
}

// LAWS
// ================================================================================================

/// The transaction data that the kernel reads from the advice stack takes 74 elements: eleven
/// words of block data, the kernel version, four words of account data, the number of notes,
/// and three words of script root and arguments.
pub proof fn lemma_tx_stack_len(tx: TransactionInputs, kernel: TransactionKernel)
    ensures
        tx_stack(tx, kernel).len() == 74,
        block_stack(tx.block_header).len() == 44,
        account_stack(tx.account).len() == 16,
        args_stack(tx).len() == 13,
{
}

/// The data of an input note takes 27 elements more than its padded assets where it is not
/// authenticated, and 37 more where it is.
pub proof fn lemma_note_data_len(tx: TransactionInputs, n: InputNote)
    ensures
        note_data(tx, n).len() == match n {
            InputNote::Authenticated { .. } => 37 + n.spec_note().assets.padded@.len(),
            InputNote::Unauthenticated { .. } => 27 + n.spec_note().assets.padded@.len(),
        },
{
}

/// The advice map key of an account's seed or header holds the account identifier's suffix and
/// prefix in its last two elements, after two zeros.
pub proof fn lemma_account_id_key_layout(id: AccountId)
    ensures
        account_id_key(id).elements() == seq![ZERO, ZERO, id.suffix, id.prefix],
{
}

// TRANSACTION ADVICE INPUTS
// ================================================================================================

/// Advice inputs that are meant to be used exclusively by the transaction kernel.
pub struct TransactionAdviceInputs(AdviceInputs);

impl View for TransactionAdviceInputs {
    type V = AdviceInputsView;

    closed spec fn view(&self) -> AdviceInputsView {
        self.0@
    }
}

impl TransactionAdviceInputs {
    /// Returns the underlying advice inputs.
    pub fn as_advice_inputs(&self) -> (r: &AdviceInputs)
        ensures
            *r == self.inner(),
            r@ == self@,
    {
        &self.0
    }

    /// Converts these transaction advice inputs into the underlying advice inputs.
    pub fn into_advice_inputs(self) -> (r: AdviceInputs)
        ensures
            r == self.inner(),
            r@ == self@,
    {
        self.0
    }

    /// Wraps advice inputs, unchanged.
    pub fn from_advice_inputs(inner: AdviceInputs) -> (r: TransactionAdviceInputs)
        ensures
            r == Self::wrapping(inner),
            r@ == inner@,
    {
        TransactionAdviceInputs(inner)
    }

    /// Extends these advice inputs with the provided advice inputs: their stack elements go
    /// after these, and their map entries and Merkle nodes replace those here under the same
    /// keys.
    pub fn extend(&mut self, adv_inputs: AdviceInputs)
        ensures
            final(self)@.stack == old(self)@.stack + adv_inputs@.stack,
            final(self)@.map == old(self)@.map.union_prefer_right(adv_inputs@.map),
            final(self)@.store == old(self)@.store.union_prefer_right(adv_inputs@.store),
    {
        self.0.extend(adv_inputs);
    }

    /// Extends the advice stack with the data of the transaction, in the order in which the
    /// kernel reads it: the reference block's header data, the kernel version, the native
    /// account's identifier, nonce and commitments, the number of input notes, and the script
    /// root and arguments.
    fn build_stack(&mut self, tx_inputs: &TransactionInputs, kernel: &TransactionKernel)
        ensures
            final(self)@.stack == old(self)@.stack + tx_stack(*tx_inputs, *kernel),
            final(self)@.map == old(self)@.map,
            final(self)@.store == old(self)@.store,
    {
        let header = &tx_inputs.block_header;
        let mut e: Vec<Felt> = Vec::new();
        header.prev_block_commitment.append_to(&mut e);
        header.chain_commitment.append_to(&mut e);
        header.account_root.append_to(&mut e);
        header.nullifier_root.append_to(&mut e);
        header.tx_commitment.append_to(&mut e);
        header.tx_kernel_commitment.append_to(&mut e);
        header.validator_key_commitment.append_to(&mut e);
        Word(header.block_num as Felt, header.version as Felt, header.timestamp as Felt, ZERO).append_to(&mut e);
        Word(
            header.native_asset_id.suffix,
            header.native_asset_id.prefix,
            header.verification_base_fee as Felt,
            ZERO,
        ).append_to(&mut e);
        Word(ZERO, ZERO, ZERO, ZERO).append_to(&mut e);
        header.note_root.append_to(&mut e);
        assert(e@ =~= block_stack(*header));
        e.push(kernel.version as Felt);
        let ghost after_block = e@;

        let account = &tx_inputs.account;
        Word(account.nonce, ZERO, account.id.suffix, account.id.prefix).append_to(&mut e);
        account.vault.root.append_to(&mut e);
        account.storage.commitment.append_to(&mut e);
        account.code.commitment.append_to(&mut e);
        assert(e@ =~= after_block + account_stack(*account));
        let ghost after_account = e@;

        let args = &tx_inputs.tx_args;
        e.push(felt_from_u64(tx_inputs.input_notes.notes.len() as u64));
        let root = match &args.tx_script {
            Some(script) => script.root,
            None => Word::empty(),
        };
        root.append_to(&mut e);
        args.tx_script_args.append_to(&mut e);
        args.auth_args.append_to(&mut e);
        assert(e@ =~= after_account + args_stack(*tx_inputs));
        assert(e@ =~= tx_stack(*tx_inputs, *kernel));
        self.extend_stack(&e);
    }

    /// Inserts the kernel commitment, mapped to the kernel's procedure roots, into the advice
    /// map.
    fn add_kernel_commitment(&mut self, kernel: &TransactionKernel)
        ensures
            final(self)@.stack == old(self)@.stack,
            final(self)@.map == insert_entries(old(self)@.map, kernel_entries(*kernel)),
            final(self)@.store == old(self)@.store,
    {
        self.add_map_entry(kernel.commitment, copy_felts(&kernel.elements));
        proof { lemma_insert_entries_push(old(self)@.map, Seq::empty(), (kernel.commitment, kernel.elements@)); }
        assert(Seq::<(Word, Seq<Felt>)>::empty().push((kernel.commitment, kernel.elements@)) =~= kernel_entries(*kernel));
    }

    /// Inserts the partial blockchain into the advice inputs: the authentication paths of its
    /// kept blocks and, once the reference block is appended to its mountain range, their
    /// updated paths go into the Merkle store; the hash of its peaks, mapped to the number of
    /// leaves and the padded peaks, goes into the advice map.
    fn add_partial_blockchain(&mut self, mmr: &PartialBlockchain, ref_block_commitment: Word)
        requires
            mmr.mmr.wf(),
            forall|j: int| 0 <= j < mmr.blocks@.len() ==> (#[trigger] mmr.blocks@[j]).block_num < mmr.mmr.forest,
        ensures
            final(self)@.stack == old(self)@.stack,
            final(self)@.map == insert_entries(old(self)@.map, chain_entries(*mmr)),
            final(self)@.store == insert_all(old(self)@.store, node_entries(chain_nodes(*mmr, ref_block_commitment))),
    {
        let n = mmr.blocks.len();
        let mut leaves: Vec<(usize, Word)> = Vec::new();
        let mut i: usize = 0;
        while i < n
            invariant
                n == mmr.blocks@.len(),
                i <= n,
                leaves@ == block_leaves(mmr.blocks@.take(i as int)),
                forall|j: int| 0 <= j < mmr.blocks@.len() ==> (#[trigger] mmr.blocks@[j]).block_num < mmr.mmr.forest,
            decreases n - i,
        {
            let b = &mmr.blocks[i];
            leaves.push((b.block_num as usize, b.commitment));
            assert(leaves@ =~= block_leaves(mmr.blocks@.take(i + 1)));
            i = i + 1;
        }
        assert(mmr.blocks@.take(n as int) =~= mmr.blocks@);
        assert forall|j: int| 0 <= j < leaves@.len() implies #[trigger] leaves@[j].0 < usize::MAX / 8 by {
            assert(leaves@[j].0 == mmr.blocks@[j].block_num as usize);
        }
        assert forall|j: int| 0 <= j < mmr.mmr.nodes@.len() implies 0 < #[trigger] mmr.mmr.nodes@[j].0 < usize::MAX / 4 by {
        }
        let kept_paths = partial_mmr_inner_nodes(&mmr.mmr.nodes, &leaves);
        self.extend_merkle_store(&kept_paths);
        let added = partial_mmr_add(&mmr.mmr, ref_block_commitment);
        let mut nodes: Vec<(usize, Word)> = Vec::new();
        let k = mmr.mmr.nodes.len();
        let mut i: usize = 0;
        while i < k
            invariant
                k == mmr.mmr.nodes@.len(),
                i <= k,
                nodes@ == mmr.mmr.nodes@.take(i as int),
            decreases k - i,
        {
            nodes.push(mmr.mmr.nodes[i]);
            assert(nodes@ =~= mmr.mmr.nodes@.take(i + 1));
            i = i + 1;
        }
        let a = added.len();
        let mut i: usize = 0;
        while i < a
            invariant
                k == mmr.mmr.nodes@.len(),
                a == added@.len(),
                i <= a,
                nodes@ == mmr.mmr.nodes@ + added@.take(i as int),
            decreases a - i,
        {
            nodes.push(added[i]);
            assert(nodes@ =~= mmr.mmr.nodes@ + added@.take(i + 1));
            i = i + 1;
        }
        assert(mmr.mmr.nodes@.take(k as int) =~= mmr.mmr.nodes@);
        assert(added@.take(a as int) =~= added@);
        assert(nodes@ == nodes_with_ref(*mmr, ref_block_commitment));
        assert forall|j: int| 0 <= j < nodes@.len() implies 0 < #[trigger] nodes@[j].0 < usize::MAX / 4 by {
            if j < k {
                assert(nodes@[j] == mmr.mmr.nodes@[j]);
            } else {
                assert(nodes@[j] == added@[j - k]);
            }
        }
        let paths = partial_mmr_inner_nodes(&nodes, &leaves);
        self.extend_merkle_store(&paths);
        proof {
            lemma_insert_all_concat(old(self)@.store, node_entries(kept_paths@), node_entries(paths@));
            crate::merkle::lemma_node_entries_concat(kept_paths@, paths@);
        }

        proof { lemma_count_ones_le(mmr.mmr.forest as nat); }
        let mut elements: Vec<Felt> = Vec::new();
        Word(felt_from_u64(mmr.mmr.forest as u64), ZERO, ZERO, ZERO).append_to(&mut elements);
        let padded = flatten_and_pad_peaks(&mmr.mmr.peaks);
        append_felts(&mut elements, &padded);
        let key = hash_mmr_peaks(&mmr.mmr);
        self.add_map_entry(key, elements);
        proof {
            lemma_insert_entries_push(old(self)@.map, Seq::empty(), (key, elements@));
            assert(Seq::<(Word, Seq<Felt>)>::empty().push((key, elements@)) =~= chain_entries(*mmr));
        }
    }

    /// The map entries of the given leaves: each leaf's hash, mapped to its elements.
    fn leaf_map_entries(leaves: &Vec<SmtLeaf>) -> (r: Vec<(Word, Vec<Felt>)>)
        ensures
            entries_view(r@) == leaves_entries(leaves@),
    {
        let n = leaves.len();
        let mut r: Vec<(Word, Vec<Felt>)> = Vec::new();
        let mut i: usize = 0;
        while i < n
            invariant
                n == leaves@.len(),
                i <= n,
                entries_view(r@) == leaves_entries(leaves@.take(i as int)),
            decreases n - i,
        {
            let leaf = &leaves[i];
            let h = hash_leaf(leaf);
            let elements = leaf.to_elements();
            let ghost prev = r@;
            r.push((h, elements));
            assert(entries_view(r@) =~= entries_view(prev).push((h, elements@)));
            assert(leaves_entries(leaves@.take(i + 1)) =~= leaves_entries(leaves@.take(i as int)).push(leaf_entry(leaves@[i as int])));
            assert(entries_view(r@) =~= leaves_entries(leaves@.take(i + 1)));
            i = i + 1;
        }
        assert(leaves@.take(n as int) =~= leaves@);
        r
    }

    /// Inserts account data into the advice inputs.
    ///
    /// The code commitment, mapped to the procedures, and the storage commitment, mapped to the
    /// storage slots, go into the advice map; so do the leaves of the storage maps and of the
    /// vault, each leaf's hash mapped to its elements. The inner nodes of the storage maps and
    /// of the vault go into the Merkle store. What comes out depends on these advice inputs and
    /// the account alone.
    pub fn add_account(&mut self, account: &PartialAccount)
        ensures
            final(self)@.stack == old(self)@.stack,
            final(self)@.map == insert_entries(old(self)@.map, account_entries(*account)),
            final(self)@.store == insert_all(old(self)@.store, node_entries(account_nodes(*account))),
    {
        let ghost m0 = self@.map;
        let ghost s0 = self@.store;
        let code = &account.code;
        self.add_map_entry(code.commitment, copy_felts(&code.elements));
        let storage_header = &account.storage.header;
        self.add_map_entry(storage_header.commitment, copy_felts(&storage_header.elements));
        let ghost head = seq![(code.commitment, code.elements@), (storage_header.commitment, storage_header.elements@)];
        proof {
            lemma_insert_entries_push(m0, Seq::empty(), head[0]);
            lemma_insert_entries_push(m0, seq![head[0]], head[1]);
            assert(Seq::<(Word, Seq<Felt>)>::empty().push(head[0]) =~= seq![head[0]]);
            assert(seq![head[0]].push(head[1]) =~= head);
        }

        self.extend_merkle_store(&account.storage.inner_nodes);
        self.extend_map(Self::leaf_map_entries(&account.storage.leaves));
        proof { lemma_insert_entries_concat(m0, head, leaves_entries(account.storage.leaves@)); }

        self.extend_merkle_store(&account.vault.inner_nodes);
        self.extend_map(Self::leaf_map_entries(&account.vault.leaves));
        proof {
            lemma_insert_entries_concat(m0, head + leaves_entries(account.storage.leaves@), leaves_entries(account.vault.leaves@));
            lemma_insert_all_concat(s0, node_entries(account.storage.inner_nodes@), node_entries(account.vault.inner_nodes@));
            crate::merkle::lemma_node_entries_concat(account.storage.inner_nodes@, account.vault.inner_nodes@);
        }
    }

    /// Adds an account witness: its leaf's hash, mapped to the leaf's elements, goes into the
    /// advice map, and the nodes of its path into the Merkle store.
    fn add_account_witness(&mut self, witness: &AccountWitness)
        requires
            path_fits(witness.path@, witness.leaf_index),
        ensures
            final(self)@.stack == old(self)@.stack,
            final(self)@.map == old(self)@.map.insert(canonical_entry(leaf_entry(witness.leaf)).0, canonical_entry(leaf_entry(witness.leaf)).1),
            final(self)@.store == insert_all(old(self)@.store, node_entries(account_witness_nodes(*witness))),
    {
        let leaf = &witness.leaf;
        let h = hash_leaf(leaf);
        self.add_map_entry(h, leaf.to_elements());
        let nodes = authenticated_nodes(&witness.path, witness.leaf_index, h);
        self.extend_merkle_store(&nodes);
    }

    /// Adds an asset witness: the nodes of its path go into the Merkle store, and its leaf's
    /// hash, mapped to the leaf's elements, into the advice map.
    fn add_asset_witness(&mut self, witness: &AssetWitness)
        requires
            path_fits(witness.path@, witness.leaf_index),
        ensures
            final(self)@.stack == old(self)@.stack,
            final(self)@.map == old(self)@.map.insert(canonical_entry(leaf_entry(witness.leaf)).0, canonical_entry(leaf_entry(witness.leaf)).1),
            final(self)@.store == insert_all(old(self)@.store, node_entries(asset_witness_nodes(*witness))),
    {
        let leaf = &witness.leaf;
        let h = hash_leaf(leaf);
        let nodes = authenticated_nodes(&witness.path, witness.leaf_index, h);
        self.extend_merkle_store(&nodes);
        self.add_map_entry(h, leaf.to_elements());
    }

    /// The header of block `num`: the reference block's, or that of the kept block of the chain
    /// with that number.
    fn block_header_for(tx_inputs: &TransactionInputs, num: u32) -> (b: &BlockHeader)
        requires
            tx_inputs_wf(*tx_inputs),
            num == tx_inputs.block_header.block_num || chain_has_block(tx_inputs.blockchain, num),
        ensures
            *b == block_for(*tx_inputs, num),
    {
        if num == tx_inputs.block_header.block_num {
            return &tx_inputs.block_header;
        }
        let blocks = &tx_inputs.blockchain.blocks;
        let n = blocks.len();
        let mut i: usize = 0;
        while i < n
            invariant
                n == blocks@.len(),
                i <= n,
                blocks@ == tx_inputs.blockchain.blocks@,
                tx_inputs_wf(*tx_inputs),
                num != tx_inputs.block_header.block_num,
                chain_has_block(tx_inputs.blockchain, num),
                forall|j: int| 0 <= j < i ==> (#[trigger] blocks@[j]).block_num != num,
            decreases n - i,
        {
            if blocks[i].block_num == num {
                proof {
                    let j = choose|j: int| 0 <= j < blocks@.len() && (#[trigger] blocks@[j]).block_num == num;
                    if j != i as int {
                        if j < i {
                            assert(blocks@[j].block_num != num);
                        } else {
                            assert(blocks@[i as int].block_num != blocks@[j].block_num);
                        }
                    }
                }
                return &blocks[i];
            }
            i = i + 1;
        }
        proof {
            let j = choose|j: int| 0 <= j < blocks@.len() && (#[trigger] blocks@[j]).block_num == num;
            assert(blocks@[j].block_num != num);
        }
        &blocks[0]
    }

    /// The data of a note that does not depend on its authentication.
    fn note_details_data(tx_inputs: &TransactionInputs, note: &Note) -> (r: Vec<Felt>)
        ensures
            r@ == note_details(*tx_inputs, *note),
    {
        let recipient = &note.recipient;
        let assets = &note.assets;
        let note_arg = match tx_inputs.tx_args.note_args.get(&note.id) {
            Some(arg) => *arg,
            None => Word::empty(),
        };
        let mut r: Vec<Felt> = Vec::new();
        recipient.serial_num.append_to(&mut r);
        recipient.script_root.append_to(&mut r);
        recipient.inputs.commitment.append_to(&mut r);
        assets.commitment.append_to(&mut r);
        note_arg.append_to(&mut r);
        note.metadata.append_to(&mut r);
        r.push(recipient.inputs.num_values as Felt);
        r.push(felt_from_u64(assets.num_assets));
        append_felts(&mut r, &assets.padded);
        assert(r@ =~= note_details(*tx_inputs, *note));
        r
    }

    /// Populates the advice inputs for all input notes.
    ///
    /// For each note, its inputs commitment mapped to its input values, its assets commitment
    /// mapped to its padded assets, and the advice map entries of its script's MAST forest go
    /// into the advice map, and its data goes into
    /// the notes' data: its serial number, script root, inputs and assets commitments, argument,
    /// metadata, the counts of its inputs and assets and its padded assets, then, for an
    /// authenticated note, the flag one, the block number, the block's sub-commitment and note
    /// root and the note's index in the block, whose path goes into the Merkle store; for
    /// another note, the flag zero. The notes' commitment, mapped to the data of all notes,
    /// goes into the advice map last. Nothing is added where there is no input note.
    fn add_input_notes(&mut self, tx_inputs: &TransactionInputs)
        requires
            tx_inputs_wf(*tx_inputs),
        ensures
            final(self)@.stack == old(self)@.stack,
            final(self)@.map == insert_entries(old(self)@.map, input_notes_entries(*tx_inputs)),
            final(self)@.store == insert_all(old(self)@.store, node_entries(notes_nodes(tx_inputs.input_notes.notes@))),
    {
        let notes = &tx_inputs.input_notes.notes;
        if notes.len() == 0 {
            assert(notes_nodes(notes@) == Seq::<InnerNode>::empty());
            assert(node_entries(Seq::<InnerNode>::empty()) =~= Seq::<(Word, StoreNode)>::empty());
            return;
        }
        let ghost m0 = self@.map;
        let ghost s0 = self@.store;
        let n = notes.len();
        let mut all_data: Vec<Felt> = Vec::new();
        let mut i: usize = 0;
        while i < n
            invariant
                n == notes@.len(),
                i <= n,
                notes@ == tx_inputs.input_notes.notes@,
                tx_inputs_wf(*tx_inputs),
                self@.stack == old(self)@.stack,
                self@.map == insert_entries(m0, notes_entries(notes@.take(i as int))),
                self@.store == insert_all(s0, node_entries(notes_nodes(notes@.take(i as int)))),
                all_data@ == notes_data(*tx_inputs, notes@.take(i as int)),
            decreases n - i,
        {
            let input_note = &notes[i];
            let note = input_note.note();
            let ghost map_before = self@.map;

            self.add_map_entry(note.recipient.inputs.commitment, copy_felts(&note.recipient.inputs.values));
            self.add_map_entry(note.assets.commitment, copy_felts(&note.assets.padded));
            self.extend_map(crate::advice::copy_entries(&note.recipient.script_advice_map));
            proof {
                let es = notes_entries(notes@.take(i as int));
                let ne = note_entries(*input_note);
                let two = seq![ne[0], ne[1]];
                let script = entries_view(note.recipient.script_advice_map@);
                lemma_insert_entries_push(m0, es, ne[0]);
                lemma_insert_entries_push(m0, es.push(ne[0]), ne[1]);
                assert(es.push(ne[0]).push(ne[1]) =~= es + two);
                lemma_insert_entries_concat(m0, es + two, script);
                assert(ne =~= two + script);
                assert(es + two + script =~= es + ne);
                assert(notes@.take(i + 1).drop_last() =~= notes@.take(i as int));
            }

            let ghost data_before = all_data@;
            let details = Self::note_details_data(tx_inputs, note);
            append_felts(&mut all_data, &details);
            let ghost store_before = self@.store;
            match input_note {
                InputNote::Authenticated { proof, .. } => {
                    all_data.push(ONE);
                    proof {
                        assert(tx_inputs.input_notes.notes@[i as int] == *input_note);
                    }
                    let path_nodes = authenticated_nodes(&proof.path, proof.node_index_in_block as u64, note.commitment);
                    self.extend_merkle_store(&path_nodes);
                    let block_num = proof.block_num;
                    proof {
                        assert(tx_inputs.input_notes.notes@[i as int] == *input_note);
                    }
                    let block_header = Self::block_header_for(tx_inputs, block_num);
                    all_data.push(block_num as Felt);
                    block_header.sub_commitment.append_to(&mut all_data);
                    block_header.note_root.append_to(&mut all_data);
                    all_data.push(proof.node_index_in_block as Felt);
                },
                InputNote::Unauthenticated { .. } => {
                    all_data.push(ZERO);
                    assert(node_entries(note_nodes(*input_note)) =~= Seq::<(Word, StoreNode)>::empty());
                },
            }
            proof {
                assert(all_data@ =~= data_before + note_data(*tx_inputs, *input_note));
                lemma_insert_all_concat(s0, node_entries(notes_nodes(notes@.take(i as int))), node_entries(note_nodes(*input_note)));
                crate::merkle::lemma_node_entries_concat(notes_nodes(notes@.take(i as int)), note_nodes(*input_note));
            }
            i = i + 1;
        }
        assert(notes@.take(n as int) =~= notes@);
        let commitment = tx_inputs.input_notes.commitment;
        self.add_map_entry(commitment, all_data);
        proof {
            let e = (commitment, notes_data(*tx_inputs, notes@));
            lemma_insert_entries_push(m0, notes_entries(notes@), e);
            assert(notes_entries(notes@).push(e) =~= input_notes_entries(*tx_inputs));
        }
    }

    /// Creates the advice inputs of a transaction.
    ///
    /// They hold the advice inputs of `tx_inputs`, extended with the data that the transaction
    /// kernel reads: the stack data of `tx_stack`, the map entries of `tx_map_entries` and the
    /// Merkle nodes of `tx_store_nodes`, in order, and finally with the advice inputs that the
    /// transaction's arguments add.
    pub fn new(tx_inputs: &TransactionInputs, kernel: &TransactionKernel) -> (r: TransactionAdviceInputs)
        requires
            tx_inputs_wf(*tx_inputs),
        ensures
            r@.stack == tx_inputs.advice_inputs@.stack + tx_stack(*tx_inputs, *kernel) + tx_inputs.tx_args.advice_inputs@.stack,
            r@.map == insert_entries(tx_inputs.advice_inputs@.map, tx_map_entries(*tx_inputs, *kernel))
                .union_prefer_right(tx_inputs.tx_args.advice_inputs@.map),
            r@.store == insert_all(tx_inputs.advice_inputs@.store, node_entries(tx_store_nodes(*tx_inputs)))
                .union_prefer_right(tx_inputs.tx_args.advice_inputs@.store),
    {
        let ghost tx = *tx_inputs;
        let ghost m0 = tx.advice_inputs@.map;
        let ghost s0 = tx.advice_inputs@.store;
        let mut inputs = TransactionAdviceInputs(tx_inputs.advice_inputs.copy());

        inputs.build_stack(tx_inputs, kernel);
        inputs.add_kernel_commitment(kernel);
        inputs.add_partial_blockchain(&tx_inputs.blockchain, tx_inputs.block_header.commitment);
        inputs.add_input_notes(tx_inputs);
        proof {
            lemma_insert_entries_concat(m0, kernel_entries(*kernel), chain_entries(tx.blockchain));
            lemma_insert_entries_concat(m0, kernel_entries(*kernel) + chain_entries(tx.blockchain), input_notes_entries(tx));
            lemma_insert_all_concat(s0, node_entries(chain_nodes(tx.blockchain, tx.block_header.commitment)), node_entries(notes_nodes(tx.input_notes.notes@)));
            crate::merkle::lemma_node_entries_concat(chain_nodes(tx.blockchain, tx.block_header.commitment), notes_nodes(tx.input_notes.notes@));
        }
        let ghost me1 = kernel_entries(*kernel) + chain_entries(tx.blockchain) + input_notes_entries(tx);
        let ghost sn1 = chain_nodes(tx.blockchain, tx.block_header.commitment) + notes_nodes(tx.input_notes.notes@);
        assert(inputs@.map == insert_entries(m0, me1));
        assert(inputs@.store == insert_all(s0, node_entries(sn1)));

        // the script's MAST forest's advice map entries
        if let Some(tx_script) = &tx_inputs.tx_args.tx_script {
            inputs.extend_map(crate::advice::copy_entries(&tx_script.advice_map));
        } else {
            assert(entries_view(Seq::<(Word, Vec<Felt>)>::empty()) =~= Seq::<(Word, Seq<Felt>)>::empty());
        }
        proof { lemma_insert_entries_concat(m0, me1, script_entries(tx.tx_args)); }
        let ghost me2 = me1 + script_entries(tx.tx_args);

        // the native account
        let account = &tx_inputs.account;
        inputs.add_account(account);
        proof {
            lemma_insert_entries_concat(m0, me2, account_entries(tx.account));
            lemma_insert_all_concat(s0, node_entries(sn1), node_entries(account_nodes(tx.account)));
            crate::merkle::lemma_node_entries_concat(sn1, account_nodes(tx.account));
        }
        let ghost me3 = me2 + account_entries(tx.account);
        let ghost sn2 = sn1 + account_nodes(tx.account);

        // ACCOUNT_ID |-> ACCOUNT_SEED
        if let Some(seed) = &account.seed {
            let account_id_key = Self::account_id_map_key(account.id);
            let mut elements: Vec<Felt> = Vec::new();
            seed.append_to(&mut elements);
            inputs.add_map_entry(account_id_key, elements);
            proof {
                lemma_insert_entries_push(m0, me3, (account_id_key, elements@));
                assert(me3.push((account_id_key, elements@)) =~= me3 + seed_entries(tx.account));
            }
        } else {
            assert(me3 + seed_entries(tx.account) =~= me3);
        }
        let ghost me4 = me3 + seed_entries(tx.account);

        // the storage maps of a new account
        if account.is_new {
            let maps = &account.storage.maps;
            let n = maps.len();
            let mut i: usize = 0;
            while i < n
                invariant
                    n == maps@.len(),
                    maps@ == tx.account.storage.maps@,
                    tx.account.is_new,
                    i <= n,
                    inputs@.stack == old_stack_of(tx, *kernel),
                    inputs@.map == insert_entries(m0, me4 + new_account_entries_upto(tx.account, i as int)),
                    inputs@.store == insert_all(s0, node_entries(sn2)),
                decreases n - i,
            {
                let storage_map = &maps[i];
                let elements = entries_to_elements(&storage_map.entries);
                inputs.add_map_entry(storage_map.root, elements);
                proof {
                    let e = storage_map_entry(*storage_map);
                    lemma_insert_entries_push(m0, me4 + new_account_entries_upto(tx.account, i as int), e);
                    assert((me4 + new_account_entries_upto(tx.account, i as int)).push(e)
                        =~= me4 + new_account_entries_upto(tx.account, i + 1));
                }
                i = i + 1;
            }
            assert(new_account_entries_upto(tx.account, n as int) =~= new_account_entries(tx.account));
        } else {
            assert(me4 + new_account_entries(tx.account) =~= me4);
        }
        let ghost me5 = me4 + new_account_entries(tx.account);
        assert(inputs@.map == insert_entries(m0, me5));

        // the asset witnesses
        let witnesses = &tx_inputs.asset_witnesses;
        let n = witnesses.len();
        let mut i: usize = 0;
        while i < n
            invariant
                n == witnesses@.len(),
                witnesses@ == tx.asset_witnesses@,
                forall|j: int| 0 <= j < n ==> path_fits((#[trigger] witnesses@[j]).path@, witnesses@[j].leaf_index),
                i <= n,
                inputs@.stack == old_stack_of(tx, *kernel),
                inputs@.map == insert_entries(m0, me5 + assets_entries(witnesses@.take(i as int))),
                inputs@.store == insert_all(s0, node_entries(sn2 + assets_nodes(witnesses@.take(i as int)))),
            decreases n - i,
        {
            let witness = &witnesses[i];
            inputs.add_asset_witness(witness);
            proof {
                let e = leaf_entry(witness.leaf);
                let es = me5 + assets_entries(witnesses@.take(i as int));
                lemma_insert_entries_push(m0, es, e);
                assert(es.push(e) =~= me5 + assets_entries(witnesses@.take(i + 1)));
                assert(witnesses@.take(i + 1).drop_last() =~= witnesses@.take(i as int));
                let ns = sn2 + assets_nodes(witnesses@.take(i as int));
                lemma_insert_all_concat(s0, node_entries(ns), node_entries(asset_witness_nodes(*witness)));
                crate::merkle::lemma_node_entries_concat(ns, asset_witness_nodes(*witness));
                assert(ns + asset_witness_nodes(*witness) =~= sn2 + assets_nodes(witnesses@.take(i + 1)));
            }
            i = i + 1;
        }
        assert(witnesses@.take(n as int) =~= witnesses@);
        assert(me5 + assets_entries(witnesses@) =~= tx_map_entries(tx, *kernel));
        assert(sn2 + assets_nodes(witnesses@) =~= tx_store_nodes(tx));

        // extra user-supplied advice
        inputs.extend(tx_inputs.tx_args.advice_inputs.copy());
        inputs
    }

    /// Adds the provided foreign accounts to the advice inputs.
    ///
    /// For each account in turn: its data, as `add_account` adds it, then its witness, then its
    /// identifier's key mapped to its header, which the kernel loads it from.
    pub fn add_foreign_accounts(&mut self, foreign_account_inputs: &Vec<AccountInputs>)
        requires
            forall|i: int| 0 <= i < foreign_account_inputs@.len()
                ==> path_fits((#[trigger] foreign_account_inputs@[i]).witness.path@, foreign_account_inputs@[i].witness.leaf_index),
        ensures
            final(self)@.stack == old(self)@.stack,
            final(self)@.map == insert_entries(old(self)@.map, foreign_entries(foreign_account_inputs@)),
            final(self)@.store == insert_all(old(self)@.store, node_entries(foreign_nodes(foreign_account_inputs@))),
    {
        let ghost m0 = self@.map;
        let ghost s0 = self@.store;
        let accs = foreign_account_inputs;
        let n = accs.len();
        let mut i: usize = 0;
        while i < n
            invariant
                n == accs@.len(),
                i <= n,
                forall|j: int| 0 <= j < n ==> path_fits((#[trigger] accs@[j]).witness.path@, accs@[j].witness.leaf_index),
                self@.stack == old(self)@.stack,
                m0 == old(self)@.map,
                s0 == old(self)@.store,
                self@.map == insert_entries(m0, foreign_entries(accs@.take(i as int))),
                self@.store == insert_all(s0, node_entries(foreign_nodes(accs@.take(i as int)))),
            decreases n - i,
        {
            let foreign_acc = &accs[i];
            let ghost es = foreign_entries(accs@.take(i as int));
            let ghost ns = foreign_nodes(accs@.take(i as int));
            self.add_account(&foreign_acc.account);
            self.add_account_witness(&foreign_acc.witness);
            let account_id_key = Self::account_id_map_key(foreign_acc.account.id);
            let header = Self::account_header(&foreign_acc.account);
            self.add_map_entry(account_id_key, header);
            proof {
                let ae = account_entries(foreign_acc.account);
                let we = leaf_entry(foreign_acc.witness.leaf);
                let he = (account_id_key, account_header_elements(foreign_acc.account));
                lemma_insert_entries_concat(m0, es, ae);
                lemma_insert_entries_push(m0, es + ae, we);
                lemma_insert_entries_push(m0, (es + ae).push(we), he);
                assert(accs@.take(i + 1).drop_last() =~= accs@.take(i as int));
                assert((es + ae).push(we).push(he) =~= foreign_entries(accs@.take(i + 1)));
                let an = account_nodes(foreign_acc.account);
                lemma_insert_all_concat(s0, node_entries(ns), node_entries(an));
                crate::merkle::lemma_node_entries_concat(ns, an);
                lemma_insert_all_concat(s0, node_entries(ns + an), node_entries(account_witness_nodes(foreign_acc.witness)));
                crate::merkle::lemma_node_entries_concat(ns + an, account_witness_nodes(foreign_acc.witness));
            }
            i = i + 1;
        }
        assert(accs@.take(n as int) =~= accs@);
    }

    /// Inserts `values` under `key` in the advice map, replacing what was there.
    fn add_map_entry(&mut self, key: Word, values: Vec<Felt>)
        ensures
            final(self)@.stack == old(self)@.stack,
            final(self)@.map == old(self)@.map.insert(canonical_word(key), canonical_felts(values@)),
            final(self)@.store == old(self)@.store,
    {
        self.0.map.insert(key, values);
    }

    /// Extends the map with the given entries, in order, replacing previously inserted items.
    fn extend_map(&mut self, entries: Vec<(Word, Vec<Felt>)>)
        ensures
            final(self)@.stack == old(self)@.stack,
            final(self)@.map == insert_entries(old(self)@.map, entries_view(entries@)),
            final(self)@.store == old(self)@.store,
    {
        self.0.map.extend(entries);
    }

    /// Extends the stack with the given elements.
    fn extend_stack(&mut self, elements: &Vec<Felt>)
        ensures
            final(self)@.stack == old(self)@.stack + elements@,
            final(self)@.map == old(self)@.map,
            final(self)@.store == old(self)@.store,
    {
        append_felts(&mut self.0.stack, elements);
    }

    /// Extends the Merkle store with the given nodes.
    fn extend_merkle_store(&mut self, nodes: &Vec<InnerNode>)
        ensures
            final(self)@.stack == old(self)@.stack,
            final(self)@.map == old(self)@.map,
            final(self)@.store == insert_all(old(self)@.store, node_entries(nodes@)),
    {
        self.0.store.extend(nodes);
    }

    /// The account's header as field elements: its identifier and nonce, its vault root, its
    /// storage commitment and its code commitment.
    fn account_header(account: &PartialAccount) -> (r: Vec<Felt>)
        ensures
            r@ == account_header_elements(*account),
    {
        let mut r: Vec<Felt> = Vec::new();
        account.id_and_nonce.append_to(&mut r);
        account.vault.root.append_to(&mut r);
        account.storage.commitment.append_to(&mut r);
        account.code.commitment.append_to(&mut r);
        assert(r@ =~= account_header_elements(*account));
        r
    }

    /// Returns the advice map key where the seed of a native account, and the header of a
    /// foreign account, is stored.
    fn account_id_map_key(id: AccountId) -> (w: Word)
        ensures
            w == account_id_key(id),
    {
        Word(ZERO, ZERO, id.suffix, id.prefix)
    }
}


impl TransactionAdviceInputs {
    /// The advice inputs that these transaction advice inputs wrap.
    pub closed spec fn inner(self) -> AdviceInputs {
        self.0
    }

    /// The transaction advice inputs that wrap `inner`.
    pub closed spec fn wrapping(inner: AdviceInputs) -> TransactionAdviceInputs {
        TransactionAdviceInputs(inner)
    }

    /// Wrapping advice inputs and taking them out again gives them back.
    pub proof fn lemma_wrap_unwrap(inner: AdviceInputs)
        ensures
            Self::wrapping(inner).inner() == inner,
            Self::wrapping(inner)@ == inner@,
    {
    }
}

// CONVERSIONS
// ================================================================================================

impl From<TransactionAdviceInputs> for AdviceInputs {
    fn from(wrapper: TransactionAdviceInputs) -> (r: AdviceInputs) {
        wrapper.0
    }
}

impl vstd::std_specs::convert::FromSpecImpl<TransactionAdviceInputs> for AdviceInputs {
    open spec fn obeys_from_spec() -> bool {
        true
    }

    open spec fn from_spec(wrapper: TransactionAdviceInputs) -> AdviceInputs {
        wrapper.inner()
    }
}

impl From<AdviceInputs> for TransactionAdviceInputs {
    fn from(inner: AdviceInputs) -> (r: TransactionAdviceInputs) {
        TransactionAdviceInputs(inner)
    }
}

impl vstd::std_specs::convert::FromSpecImpl<AdviceInputs> for TransactionAdviceInputs {
    open spec fn obeys_from_spec() -> bool {
        true
    }

    open spec fn from_spec(inner: AdviceInputs) -> TransactionAdviceInputs {
        TransactionAdviceInputs::wrapping(inner)
    }
}

} // verus!
