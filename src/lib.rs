//! A registry of collectible "kitties": creation, transfer and breeding, with
//! an ownership index and lineage records kept consistent by every operation.
//!
//! Accounts are `u64` and kitty ids `u32`. The deposit ledger is supplied by
//! the caller through [`DepositLedger`], of which [`MemoryLedger`] is an
//! in-memory implementation; the randomness for new genomes comes
//! from the [`CallContext`] of each call.

mod genome;
mod laws;
mod ledger;
mod operations;
mod registry;
mod types;

pub use genome::{combine_dna, combine_genomes, random_value};
pub use ledger::MemoryLedger;
pub use laws::{lemma_ids_strictly_increase, lemma_owner_index_sync, lemma_same_parent_refused};
pub use registry::Module;
pub use types::{CallContext, DepositLedger, Kitty, KittyError, KittyEvent, KITTY_INDEX_MAX};
