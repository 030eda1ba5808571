//! Extraction of marker transactions from a Bitcoin block, with Merkle
//! inclusion proofs that anchor a transaction to the block's transaction set.

pub mod classify;
pub mod hash;
pub mod merkle;
pub mod payload;
pub mod processor;
pub mod script;
pub mod types;
