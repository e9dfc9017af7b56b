//! The parts of a transaction's inputs that its advice inputs are built from.

use vstd::prelude::*;

use std::sync::Arc;

use miden_core::mast::MastForest;

use crate::advice::AdviceInputs;
use crate::merkle::{InnerNode, SmtLeaf};
use crate::mmr::MmrParts;
use crate::word::{Felt, Word};
use crate::word_map::WordMap;

verus! {

/// The identifier of an account, by its two field elements.
#[derive(Clone, Copy, Debug, PartialEq, Eq, Structural)]
pub struct AccountId {
    pub prefix: Felt,
    pub suffix: Felt,
}

/// The fields of a block header that the advice inputs hold.
#[derive(Clone, Copy, Debug)]
pub struct BlockHeader {
    pub block_num: u32,
    pub version: u32,
    pub timestamp: u32,
    pub prev_block_commitment: Word,
    pub chain_commitment: Word,
    pub account_root: Word,
    pub nullifier_root: Word,
    pub note_root: Word,
    pub tx_commitment: Word,
    pub tx_kernel_commitment: Word,
    pub validator_key_commitment: Word,
    /// The faucet of the native asset, in which fees are paid.
    pub native_asset_id: AccountId,
    pub verification_base_fee: u32,
    pub sub_commitment: Word,
    pub commitment: Word,
}

/// The part of the chain that a transaction needs: its Merkle mountain range and the headers of
/// the blocks whose authentication paths it keeps.
pub struct PartialBlockchain {
    pub mmr: MmrParts,
    pub blocks: Vec<BlockHeader>,
}

/// The code of an account: its commitment, its procedures as field elements, and its MAST.
pub struct AccountCode {
    pub commitment: Word,
    pub elements: Vec<Felt>,
    pub mast: Arc<MastForest>,
}

/// The header of an account's storage: its commitment and its slots as field elements.
pub struct StorageHeader {
    pub commitment: Word,
    pub elements: Vec<Felt>,
}

/// A storage map of an account: its root and its key-value pairs.
pub struct StorageMap {
    pub root: Word,
    pub entries: Vec<(Word, Word)>,
}

/// The part of an account's storage that a transaction needs.
pub struct PartialStorage {
    pub commitment: Word,
    pub header: StorageHeader,
    /// The inner nodes of the storage maps' trees.
    pub inner_nodes: Vec<InnerNode>,
    /// The leaves of the storage maps' trees.
    pub leaves: Vec<SmtLeaf>,
    pub maps: Vec<StorageMap>,
}

/// The part of an account's vault that a transaction needs.
pub struct PartialVault {
    pub root: Word,
    pub inner_nodes: Vec<InnerNode>,
    pub leaves: Vec<SmtLeaf>,
}

/// The part of an account that a transaction needs.
pub struct PartialAccount {
    pub id: AccountId,
    pub nonce: Felt,
    pub code: AccountCode,
    pub storage: PartialStorage,
    pub vault: PartialVault,
    /// The seed of a new account, if it has one.
    pub seed: Option<Word>,
    /// Whether the account has not been created on chain yet.
    pub is_new: bool,
    /// The first word of the account's header: its identifier and nonce, as the protocol lays
    /// them out. The header goes on with the vault root, the storage commitment and the code
    /// commitment.
    pub id_and_nonce: Word,
}

/// The witness that an account is in the account tree: its leaf, the leaf's index at the
/// tree's bottom level, and the siblings on the leaf's path to the root, deepest first.
pub struct AccountWitness {
    pub leaf: SmtLeaf,
    pub leaf_index: u64,
    pub path: Vec<Word>,
}

/// A foreign account that a transaction reads, with the witness of its state.
pub struct AccountInputs {
    pub account: PartialAccount,
    pub witness: AccountWitness,
}

/// The witness of an asset in a vault: its leaf, the leaf's index at the tree's bottom level,
/// and the siblings on the leaf's path to the root, deepest first.
pub struct AssetWitness {
    pub leaf: SmtLeaf,
    pub leaf_index: u64,
    pub path: Vec<Word>,
}

/// The assets of a note: their commitment, their count, and their elements padded to an even
/// number of words.
pub struct NoteAssets {
    pub commitment: Word,
    pub num_assets: u64,
    pub padded: Vec<Felt>,
}

/// The inputs of a note's script: their commitment, their values and their count.
pub struct NoteInputs {
    pub commitment: Word,
    pub values: Vec<Felt>,
    pub num_values: u16,
}

/// The recipient of a note: its serial number, its script's root, the advice map entries of its
/// script's MAST forest, and the script's inputs.
pub struct NoteRecipient {
    pub serial_num: Word,
    pub script_root: Word,
    pub script_advice_map: Vec<(Word, Vec<Felt>)>,
    pub inputs: NoteInputs,
}

/// A note, with its identifier, its commitment and its metadata.
pub struct Note {
    pub id: Word,
    /// The commitment that the note's inclusion path proves in its block's note tree.
    pub commitment: Word,
    pub metadata: Word,
    pub assets: NoteAssets,
    pub recipient: NoteRecipient,
}

/// The proof that a note was created in a block: the block, the note's position in the block's
/// note tree, and the siblings on its path to the tree's root, deepest first.
pub struct NoteInclusionProof {
    pub block_num: u32,
    pub node_index_in_block: u16,
    pub path: Vec<Word>,
}

/// A note that a transaction consumes, with its inclusion proof when it has one.
pub enum InputNote {
    Authenticated { note: Note, proof: NoteInclusionProof },
    Unauthenticated { note: Note },
}

impl InputNote {
    /// The note itself.
    pub open spec fn spec_note(&self) -> &Note {
        match self {
            InputNote::Authenticated { note, .. } => note,
            InputNote::Unauthenticated { note } => note,
        }
    }

    /// The note itself.
    #[verifier::when_used_as_spec(spec_note)]
    pub fn note(&self) -> (n: &Note)
        ensures
            n == self.spec_note(),
    {
        match self {
            InputNote::Authenticated { note, .. } => note,
            InputNote::Unauthenticated { note } => note,
        }
    }
}

/// The notes that a transaction consumes, with their commitment.
pub struct InputNotes {
    pub commitment: Word,
    pub notes: Vec<InputNote>,
}

/// A transaction script: its root and the advice map entries of its MAST forest.
pub struct TransactionScript {
    pub root: Word,
    pub advice_map: Vec<(Word, Vec<Felt>)>,
}

/// The arguments of a transaction.
pub struct TransactionArgs {
    pub tx_script: Option<TransactionScript>,
    pub tx_script_args: Word,
    pub auth_args: Word,
    /// The arguments of notes, by note identifier.
    pub note_args: WordMap<Word>,
    /// Advice inputs that the user adds.
    pub advice_inputs: AdviceInputs,
}

/// The inputs of a transaction.
pub struct TransactionInputs {
    pub account: PartialAccount,
    pub block_header: BlockHeader,
    pub blockchain: PartialBlockchain,
    pub input_notes: InputNotes,
    pub tx_args: TransactionArgs,
    pub advice_inputs: AdviceInputs,
    pub asset_witnesses: Vec<AssetWitness>,
}

/// The transaction kernel: its version, the commitment to its procedures and their roots as
/// field elements.
pub struct TransactionKernel {
    pub version: u8,
    pub commitment: Word,
    pub elements: Vec<Felt>,
}

} // verus!
