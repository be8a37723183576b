//! The decisions of a Solana RPC node that serves recent blocks and
//! transactions from its own storage.

pub mod inspector;
pub mod rpc;
pub mod source;
pub mod storage;
pub mod text;
