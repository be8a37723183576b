//! `getTransactionsForAddress`: the transactions of an address, filtered and
//! page by page.

pub mod filter;
pub mod full;
pub mod page;
pub mod request;
