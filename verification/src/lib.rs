//! Construction of the advice inputs that a Miden transaction kernel reads, and the store of
//! MAST forests that the VM consults while it executes a transaction.

pub mod word;
pub mod word_map;
pub mod merkle;
pub mod mmr;
pub mod advice;
pub mod inputs;
pub mod mast_store;
pub mod tx_advice;
pub mod tx_laws;
