//! A quorum-based multi-party authorization wallet: registered owners
//! contribute post-quantum signatures over one transaction message, and the
//! transaction is authorized once enough of them verify.

pub mod crypto;
pub mod owner_map;
pub mod error;
pub mod registry;
pub mod ledger;
pub mod wallet;
pub mod session;
