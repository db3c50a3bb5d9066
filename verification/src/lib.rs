//! Verified core logic of a handful of FRAME pallets and the pallet-revive
//! Ethereum RPC: precompile address matching, bounded block caches, the
//! bounties state machine, benchmark weight formulas and receipt helpers.

pub mod precompiles;
pub mod bounties;
pub mod bounty_laws;
pub mod bounty_call_laws;
pub mod key_map;
pub mod block_info_provider;
pub mod block_cache;
pub mod weight;
pub mod nis_weights;
pub mod system_weights;
pub mod hrmp_weights;
pub mod receipt_provider;
pub mod cache_laws;
