//! A constant-product automated market maker for on-ledger asset pairs.
//!
//! Accounts bootstrap liquidity pools for a market (an ordered pair of
//! assets), deposit and withdraw liquidity, and swap one asset for the
//! other against the pool. Trading fees are accrued per pool and paid out
//! periodically to liquidity providers in proportion to their recorded
//! contribution.
//!
//! The crate models the complete accounting state — asset balances, the
//! pool registry and the liquidity-provision ledger — as plain data, so
//! that every state transition is verified: each operation either applies
//! all of its effects or fails with a documented error and no state change.

pub mod ledger;
pub mod math;
pub mod pallet;
pub mod payout;
pub mod properties;
pub mod types;
