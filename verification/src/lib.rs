//! Verified core of the Kreivo / Virto parachain: the chain-spec and runtime
//! selection rules of the node, the escrow payments pallet, the communities
//! registry and the timestamp weights.

pub mod arith;
pub mod command;
pub mod communities;
pub mod liquidity_provider;
pub mod store;
pub mod weights;
pub mod payments;
