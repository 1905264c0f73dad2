//! A ledger of client accounts: deposits, withdrawals and the dispute
//! lifecycle of deposits, over exact decimal amounts.

pub mod amount;
pub mod decimal;
pub mod account;
pub mod transaction;
pub mod ledger;
