//! An append-only, hash-linked chain of blocks secured by proof-of-work,
//! with an account-balance ledger beside it.

pub mod block;
pub mod blockchain;
pub mod digest;

pub use block::Block;
pub use blockchain::{current_timestamp, Blockchain, ChainFault};
