//! Verified logic of the Nibiru CosmWasm contracts: token vesting and
//! airdrop campaigns, lockups and incentive programs, the operator-gated
//! broker, staking and shifter contracts, the perp sudoers and the NUSD
//! valuator's denomination set.
pub mod common;
pub mod key_order;
pub mod ownable;
pub mod broker_bank;
pub mod core_compounder;
pub mod core_shifter;
pub mod nusd_valuator;
pub mod bindings_perp;
pub mod nibi_stargate_perp;
pub mod airdrop;
pub mod vesting;
pub mod lockup;
pub mod incentives;
pub mod token_vesting;
