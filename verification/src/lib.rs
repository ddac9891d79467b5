//! A minimal token ledger: per-address balances, a running total supply and
//! an access-controlled mint capability, with every state transition stated
//! as a contract and proved.

pub mod error;
pub mod text;
pub mod state;
pub mod msg;
pub mod contract;
pub mod laws;
