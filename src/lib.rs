//! Indexer core for DID documents carried by cells of a UTXO chain: the cell
//! payload codec, the document validator, identifier and address derivation,
//! the projection store and the block follower.
pub mod bytes;
pub mod ckb;
pub mod envelope;
pub mod error;
pub mod store;
pub mod util;
