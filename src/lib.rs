//! A ledger of client accounts driven by an ordered stream of transaction
//! orders: deposits, withdrawals, and a dispute / resolve / chargeback
//! workflow that can reverse an earlier deposit and lock an account.

pub mod amount;
pub mod account;
pub mod transaction;
pub mod storage;
pub mod manager;
pub mod application;
