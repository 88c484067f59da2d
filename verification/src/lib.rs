//! A fungible-token ledger: configuration, ownership, balances and allowances,
//! with every call a single atomic state transition.

pub mod address;
pub mod book;
pub mod config;
pub mod error;
pub mod laws;
pub mod ledger;
pub mod model;
pub mod numbers;
pub mod sums;
pub mod text;
