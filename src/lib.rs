//! Verified core of an EVM chain indexer: gap detection and work planning for
//! backfill, per-block completeness validation, chunked persistence planning,
//! the head-subscription supervisor, and the ERC-20 transfer log decoder.
use vstd::prelude::*;

pub mod abi;
pub mod assembler;
pub mod erc20_transfers;
pub mod records;
pub mod schedule;
pub mod store;
pub mod subscriber;
pub mod tokens;

verus! {

} // verus!
