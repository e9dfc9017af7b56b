# miden-tx-advice

Builds the advice inputs that the Miden transaction kernel reads while it runs, and keeps the
store of MAST forests from which the VM loads procedures, with contracts proved by Verus.

- `src/word.rs`, `src/word_map.rs`: field elements, words, and a map keyed by words in which a
  later insertion replaces an earlier one (for note arguments and procedure roots).
- `src/merkle.rs`, `src/advice.rs`: Merkle store nodes, sparse Merkle tree leaves, and the advice
  inputs (stack, map, Merkle store), whose map and store are those of `miden-core` and
  `miden-crypto`, reached through wrappers with contracts over their contents.
- `src/mmr.rs`: the parts of a partial Merkle mountain range and the calls into `miden-crypto`
  that hash its peaks and derive authentication paths.
- `src/inputs.rs`: the transaction data that the advice inputs are built from.
- `src/tx_advice.rs`: `TransactionAdviceInputs`, with the layout of the stack, map and store
  stated as specification functions.
- `src/mast_store.rs`: `TransactionMastStore`.
- `app/`: conversions between these values and the VM's types, the advice mutations, and the
  store behind the VM's `MastForestStore` trait.
