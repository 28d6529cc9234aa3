//! The communities pallet: its types and the registry of communities.

pub mod types;
pub mod governance;
pub mod registry;
