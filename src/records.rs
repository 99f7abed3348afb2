//! The records that the indexer produces from a block and stores.
use vstd::prelude::*;

verus! {

/// A block header as stored: `transactions` is the count the block declares.
#[derive(Clone, Debug, PartialEq)]
pub struct Block {
    pub number: i64,
    pub hash: String,
    pub timestamp: i64,
    pub transactions: i64,
}

/// A transaction, keyed by its hash, referring to its block by number.
#[derive(Clone, Debug, PartialEq)]
pub struct Transaction {
    pub hash: String,
    pub block_number: i64,
    pub from_address: String,
    pub to_address: String,
    pub value: String,
    pub transaction_index: i64,
}

/// The execution outcome of one transaction, keyed by the transaction hash.
#[derive(Clone, Debug, PartialEq)]
pub struct Receipt {
    pub hash: String,
    pub status: bool,
    pub gas_used: String,
}

/// An event log, keyed by transaction hash and log index. Each topic is a
/// 32-byte hex value or absent. `erc20_transfers_parsed` is the tri-state
/// parse flag: unset, false or true.
#[derive(Clone, Debug, PartialEq)]
pub struct TransactionLog {
    pub hash: String,
    pub log_index: i64,
    pub address: String,
    pub topics: Vec<Option<String>>,
    pub data: String,
    pub erc20_transfers_parsed: Option<bool>,
}

/// A contract deployment, keyed by the contract address.
#[derive(Clone, Debug, PartialEq)]
pub struct Contract {
    pub address: String,
    pub creator: String,
    pub block_number: i64,
    pub transaction_hash: String,
}

} // verus!
