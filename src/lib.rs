//! Accounting engine for a pooled, fee-funded staking scheme.
//!
//! A fee charged on transfers is collected into a vault and shared among the
//! stakers in proportion to their stake through a reward-per-share
//! accumulator. `state` holds the records and the accounting rules,
//! `helper` the two ways lamports move, `initialize`, `staking`, `admin`
//! and `transaction` the operations on the accounts they touch, and
//! `transaction_staking` a whole deployment with every live position.

pub mod admin;
pub mod error;
pub mod helper;
pub mod identity;
pub mod initialize;
pub mod staking;
pub mod state;
pub mod transaction;
pub mod transaction_staking;
