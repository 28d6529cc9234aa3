//! The escrow payments pallet.

pub mod types;
pub mod fees;
pub mod pallet;
pub mod ledger;
pub mod laws;
pub mod ordered;
