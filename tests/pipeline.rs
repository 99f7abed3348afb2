use evm_indexer::assembler::{assemble_block, collect_receipts, transactions_complete, ReceiptBatch, TransactionReceiptData};
use evm_indexer::records::{Block, Contract, Receipt, Transaction, TransactionLog};
use evm_indexer::schedule::{chunks, missing_blocks, plan_provider_work, split_for_providers, vec_to_set};
use evm_indexer::store::{checkpoint, get_chunks, merge_bundles, stored_parse_flag, LogWrite, MAX_STATEMENT_PARAMS};
use evm_indexer::subscriber::{step, SubscriberAction, SubscriberEvent, SubscriberState, RECONNECT_DELAY_SECS};
use evm_indexer::tokens::{split_token_metadata, DatabaseToken};
use std::collections::HashSet;

fn block(number: i64, transactions: i64) -> Block {
    Block { number, hash: format!("0xb{}", number), timestamp: 1_700_000_000 + number, transactions }
}

fn tx(n: i64, i: i64) -> Transaction {
    Transaction {
        hash: format!("0x{}{}", n, i),
        block_number: n,
        from_address: "0xa".to_string(),
        to_address: "0xb".to_string(),
        value: "0".to_string(),
        transaction_index: i,
    }
}

fn receipt(hash: &str) -> Receipt {
    Receipt { hash: hash.to_string(), status: true, gas_used: "21000".to_string() }
}

fn plain_log(hash: &str, index: i64) -> TransactionLog {
    TransactionLog {
        hash: hash.to_string(),
        log_index: index,
        address: "0xc".to_string(),
        topics: vec![],
        data: "0x".to_string(),
        erc20_transfers_parsed: None,
    }
}

fn full_bundle(n: i64, count: i64) -> Option<evm_indexer::assembler::BlockBundle> {
    let txs: Vec<Transaction> = (0..count).map(|i| tx(n, i)).collect();
    let receipts = txs.iter().map(|t| receipt(&t.hash)).collect();
    assemble_block(block(n, count), txs, Some(ReceiptBatch { receipts, logs: vec![], contracts: vec![] }))
}

#[test]
fn missing_is_the_range_minus_the_indexed_set() {
    let indexed = vec_to_set(vec![101, 103, 99, 200]);
    assert_eq!(missing_blocks(100, 106, &indexed), vec![100, 102, 104, 105]);
    assert_eq!(missing_blocks(100, 100, &indexed), Vec::<i64>::new());
    assert_eq!(missing_blocks(105, 100, &indexed), Vec::<i64>::new());
    let all: HashSet<i64> = (0..10).collect();
    assert!(missing_blocks(0, 10, &all).is_empty());
}

#[test]
fn vec_to_set_drops_duplicates() {
    let s = vec_to_set(vec![5, 5, 7]);
    assert_eq!(s.len(), 2);
    assert!(s.contains(&5) && s.contains(&7));
}

#[test]
fn end_to_end_single_provider_plan() {
    let mut indexed: HashSet<i64> = HashSet::new();
    let missing = missing_blocks(100, 105, &indexed);
    let slices = split_for_providers(&missing, 1);
    assert_eq!(slices, vec![vec![100, 101, 102, 103, 104]]);
    let plan = plan_provider_work(&slices[0], 2, 1);
    assert_eq!(plan, vec![vec![vec![100, 101]], vec![vec![102, 103]], vec![vec![104]]]);
    let mut checkpoints = vec![];
    for super_chunk in &plan {
        let results: Vec<_> = super_chunk.iter().flatten().map(|n| full_bundle(*n, 1)).collect();
        let batch = merge_bundles(results);
        checkpoint(&mut indexed, &batch.blocks);
        checkpoints.push(indexed.len());
    }
    assert_eq!(checkpoints, vec![2, 4, 5]);
    let expected: HashSet<i64> = (100..105).collect();
    assert_eq!(indexed, expected);
    assert!(missing_blocks(100, 105, &indexed).is_empty());
}

#[test]
fn restart_refetches_only_what_was_not_stored() {
    let mut indexed: HashSet<i64> = HashSet::new();
    let plan = plan_provider_work(&missing_blocks(100, 105, &indexed), 2, 1);
    let first: Vec<_> = plan[0][0].iter().map(|n| full_bundle(*n, 0)).collect();
    checkpoint(&mut indexed, &merge_bundles(first).blocks);
    assert_eq!(missing_blocks(100, 105, &indexed), vec![102, 103, 104]);
    let again = merge_bundles(vec![full_bundle(100, 0)]);
    checkpoint(&mut indexed, &again.blocks);
    assert_eq!(indexed.len(), 2);
}

#[test]
fn providers_get_near_equal_contiguous_slices() {
    let items: Vec<i64> = (1..=7).collect();
    assert_eq!(split_for_providers(&items, 3), vec![vec![1, 2, 3], vec![4, 5], vec![6, 7]]);
    assert_eq!(split_for_providers(&vec![1, 2], 3), vec![vec![1], vec![2], vec![]]);
}

#[test]
fn chunks_cut_in_order() {
    assert_eq!(chunks(&vec![1, 2, 3, 4, 5], 2), vec![vec![1, 2], vec![3, 4], vec![5]]);
    assert!(chunks(&vec![], 3).is_empty());
    let plan = plan_provider_work(&(0..7).collect(), 2, 2);
    assert_eq!(plan, vec![vec![vec![0, 1], vec![2, 3]], vec![vec![4, 5], vec![6]]]);
}

#[test]
fn statement_chunks_respect_the_parameter_ceiling() {
    assert_eq!(get_chunks(0, 7), vec![]);
    assert_eq!(get_chunks(10, 7), vec![(0, 10)]);
    let rows = MAX_STATEMENT_PARAMS / 7;
    assert_eq!(get_chunks(2 * rows + 1, 7), vec![(0, rows), (rows, 2 * rows), (2 * rows, 2 * rows + 1)]);
    assert_eq!(get_chunks(3, MAX_STATEMENT_PARAMS), vec![(0, 1), (1, 2), (2, 3)]);
}

#[test]
fn block_with_missing_transactions_is_rejected() {
    let b = block(7, 3);
    let txs = vec![tx(7, 0), tx(7, 1)];
    assert!(!transactions_complete(&b, &txs));
    let receipts = ReceiptBatch { receipts: vec![receipt("a"), receipt("b")], logs: vec![], contracts: vec![] };
    assert!(assemble_block(b, txs, Some(receipts)).is_none());
}

#[test]
fn block_with_missing_receipts_is_rejected() {
    let txs = vec![tx(8, 0), tx(8, 1)];
    let receipts = ReceiptBatch { receipts: vec![receipt("a")], logs: vec![], contracts: vec![] };
    assert!(assemble_block(block(8, 2), txs.clone(), Some(receipts)).is_none());
    assert!(assemble_block(block(8, 2), txs, None).is_none());
}

#[test]
fn complete_block_is_assembled() {
    let bundle = full_bundle(9, 2).expect("complete");
    assert_eq!(bundle.block.number, 9);
    assert_eq!(bundle.transactions.len(), 2);
    assert_eq!(bundle.receipts.len(), 2);
    let empty = full_bundle(10, 0).expect("empty blocks are complete");
    assert!(empty.transactions.is_empty());
}

#[test]
fn per_transaction_receipts_skip_missing_ones() {
    let contract = Contract {
        address: "0xd".to_string(),
        creator: "0xa".to_string(),
        block_number: 1,
        transaction_hash: "h1".to_string(),
    };
    let results = vec![
        Some(TransactionReceiptData { receipt: receipt("h1"), logs: vec![plain_log("h1", 0), plain_log("h1", 1)], contract: Some(contract) }),
        None,
        Some(TransactionReceiptData { receipt: receipt("h3"), logs: vec![plain_log("h3", 2)], contract: None }),
    ];
    let batch = collect_receipts(results);
    let hashes: Vec<&str> = batch.receipts.iter().map(|r| r.hash.as_str()).collect();
    assert_eq!(hashes, vec!["h1", "h3"]);
    let indices: Vec<i64> = batch.logs.iter().map(|l| l.log_index).collect();
    assert_eq!(indices, vec![0, 1, 2]);
    assert_eq!(batch.contracts.len(), 1);
    let txs = vec![tx(1, 0), tx(1, 1), tx(1, 2)];
    assert!(assemble_block(block(1, 3), txs, Some(batch)).is_none());
}

#[test]
fn merge_keeps_accepted_bundles_in_order() {
    let batch = merge_bundles(vec![full_bundle(1, 2), None, full_bundle(3, 1)]);
    let numbers: Vec<i64> = batch.blocks.iter().map(|b| b.number).collect();
    assert_eq!(numbers, vec![1, 3]);
    assert_eq!(batch.transactions.len(), 3);
    assert_eq!(batch.receipts.len(), 3);
}

#[test]
fn parse_flag_never_goes_back() {
    assert_eq!(stored_parse_flag(Some(Some(true)), Some(false), LogWrite::InsertOrIgnore), Some(true));
    assert_eq!(stored_parse_flag(Some(Some(true)), None, LogWrite::MarkParsed), Some(true));
    assert_eq!(stored_parse_flag(Some(None), Some(true), LogWrite::MarkParsed), Some(true));
    assert_eq!(stored_parse_flag(Some(Some(false)), Some(true), LogWrite::InsertOrIgnore), Some(false));
    assert_eq!(stored_parse_flag(None, None, LogWrite::InsertOrIgnore), None);
}

#[test]
fn storing_the_same_block_twice_indexes_it_once() {
    let mut indexed: HashSet<i64> = HashSet::new();
    let blocks = vec![block(4, 0)];
    checkpoint(&mut indexed, &blocks);
    checkpoint(&mut indexed, &blocks);
    assert_eq!(indexed.len(), 1);
}

#[test]
fn subscriber_reconnects_after_a_delay() {
    let (s, a) = step(SubscriberState::Connecting, SubscriberEvent::OpenFailed);
    assert_eq!((s, a), (SubscriberState::Disconnected, SubscriberAction::Sleep(RECONNECT_DELAY_SECS)));
    let (s, a) = step(s, SubscriberEvent::DelayElapsed);
    assert_eq!((s, a), (SubscriberState::Connecting, SubscriberAction::Subscribe));
    let (s, a) = step(s, SubscriberEvent::Opened);
    assert_eq!((s, a), (SubscriberState::Subscribed, SubscriberAction::AwaitNext));
    assert_eq!(step(s, SubscriberEvent::Header(Some(42))), (s, SubscriberAction::ProcessBlock(42)));
    assert_eq!(step(s, SubscriberEvent::Header(None)), (s, SubscriberAction::AwaitNext));
    assert_eq!(step(s, SubscriberEvent::Header(Some(u64::MAX))), (s, SubscriberAction::AwaitNext));
    assert_eq!(step(s, SubscriberEvent::HeaderFailed), (s, SubscriberAction::AwaitNext));
    assert_eq!(
        step(s, SubscriberEvent::StreamEnded),
        (SubscriberState::Disconnected, SubscriberAction::Sleep(RECONNECT_DELAY_SECS))
    );
}

#[test]
fn token_metadata_split_keeps_named_tokens_and_excludes_the_rest() {
    let token = |address: &str, name: &str, symbol: &str| DatabaseToken {
        address: address.to_string(),
        chain: "mainnet".to_string(),
        name: name.to_string(),
        symbol: symbol.to_string(),
        decimals: 18,
    };
    let requested = vec!["0x1".to_string(), "0x2".to_string(), "0x3".to_string()];
    let returned = vec![token("0x1", "Coin", "CN"), token("0x3", "", "X")];
    let split = split_token_metadata(&requested, &returned, &"mainnet".to_string());
    assert_eq!(split.tokens.len(), 1);
    assert_eq!(split.tokens[0].address, "0x1");
    assert_eq!(split.excluded.len(), 1);
    assert_eq!(split.excluded[0].address, "0x2");
    assert_eq!(split.excluded[0].address_with_chain, "0x2-mainnet");
    assert_eq!(split.excluded[0].chain, "mainnet");
}
