//! The requests: how each is read, what it asks of the storage and of other
//! nodes, and what it is answered.

pub mod action;
pub mod block;
pub mod cluster;
pub mod gtfa;
pub mod inflation;
pub mod jsonrpc;
pub mod keys;
pub mod laws;
pub mod params;
pub mod records;
pub mod signatures;
pub mod state;
pub mod transaction;
pub mod work;
