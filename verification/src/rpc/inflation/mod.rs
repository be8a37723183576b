//! `getInflationReward`: the rewards of addresses in an epoch.

pub mod fetch;
pub mod process;
pub mod request;
pub mod rewards;
