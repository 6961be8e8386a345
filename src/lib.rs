//! Settlement core of a cross-chain bridge: finding deposit outputs in
//! UTXO-chain transactions, and advancing the account chain's canon block
//! once it is buried under enough confirmations.

pub mod address;
pub mod bytes;
pub mod canon;
pub mod chain_store;
pub mod deposit;
pub mod error;
pub mod extract;
