use evm_indexer::erc20_transfers::{ERC20TransfersParser, PAGE_SIZE};
use evm_indexer::records::TransactionLog;

const TRANSFER_TOPIC: &str = "0xddf252ad1be2c89b69c2b068fc378daa952ba7f163c4a11628f55a4df523b3ef";
const ADDR_A: &str = "0x1111111111111111111111111111111111111111";
const ADDR_B: &str = "0xabcdefabcdefabcdefabcdefabcdefabcdefabcd";

fn pad32(addr: &str) -> String {
    format!("0x000000000000000000000000{}", &addr[2..])
}

fn word(value_hex: &str) -> String {
    format!("0x{:0>64}", value_hex)
}

fn log(index: i64, topics: Vec<Option<String>>, data: String, flag: Option<bool>) -> TransactionLog {
    TransactionLog {
        hash: "0xfeed".to_string(),
        log_index: index,
        address: "0x00000000000000000000000000000000000000ee".to_string(),
        topics,
        data,
        erc20_transfers_parsed: flag,
    }
}

fn transfer_topics(from: &str, to: &str) -> Vec<Option<String>> {
    vec![Some(TRANSFER_TOPIC.to_string()), Some(pad32(from)), Some(pad32(to))]
}

#[test]
fn decodes_a_transfer_of_one() {
    let parser = ERC20TransfersParser {};
    let logs = vec![log(3, transfer_topics(ADDR_A, ADDR_B), word("1"), None)];
    let out = parser.parse(&logs);
    assert_eq!(out.transfers.len(), 1);
    let t = &out.transfers[0];
    assert_eq!(t.from_address, ADDR_A);
    assert_eq!(t.to_address, ADDR_B);
    assert_eq!(t.value, "1");
    assert_eq!(t.hash, "0xfeed");
    assert_eq!(t.log_index, 3);
    assert_eq!(t.token, "0x00000000000000000000000000000000000000ee");
    assert_eq!(t.erc20_tokens_parced, Some(false));
    assert_eq!(out.parsed_logs[0].erc20_transfers_parsed, Some(true));
}

#[test]
fn renders_values_beyond_u128_in_base_ten() {
    let parser = ERC20TransfersParser {};
    let logs = vec![log(0, transfer_topics(ADDR_A, ADDR_B), format!("0x{}", "f".repeat(64)), None)];
    let out = parser.parse(&logs);
    assert_eq!(
        out.transfers[0].value,
        "115792089237316195423570985008687907853269984665640564039457584007913129639935"
    );
}

#[test]
fn upper_case_hex_and_missing_prefix_decode() {
    let parser = ERC20TransfersParser {};
    let from = pad32(ADDR_B).to_uppercase().replacen("0X", "", 1);
    let logs = vec![log(
        0,
        vec![Some(TRANSFER_TOPIC.to_string()), Some(from), Some(pad32(ADDR_A))],
        word("ff"),
        None,
    )];
    let out = parser.parse(&logs);
    assert_eq!(out.transfers[0].from_address, ADDR_B);
    assert_eq!(out.transfers[0].to_address, ADDR_A);
    assert_eq!(out.transfers[0].value, "255");
}

#[test]
fn two_or_four_topics_give_no_transfer_but_are_marked() {
    let parser = ERC20TransfersParser {};
    let two = vec![Some(TRANSFER_TOPIC.to_string()), Some(pad32(ADDR_A))];
    let mut four = transfer_topics(ADDR_A, ADDR_B);
    four.push(Some(pad32(ADDR_A)));
    let logs = vec![log(0, two, word("1"), None), log(1, four, word("1"), Some(false))];
    let out = parser.parse(&logs);
    assert!(out.transfers.is_empty());
    assert_eq!(out.parsed_logs.len(), 2);
    assert!(out.parsed_logs.iter().all(|l| l.erc20_transfers_parsed == Some(true)));
    assert_eq!(out.parsed_logs[1].log_index, 1);
}

#[test]
fn other_events_and_malformed_words_are_skipped() {
    let parser = ERC20TransfersParser {};
    let approval = "0x8c5be1e5ebec7d5bd14f71427d1e84f3dd0314c0f7b2291e5b200ac8c7c3b925";
    let logs = vec![
        log(0, vec![Some(approval.to_string()), Some(pad32(ADDR_A)), Some(pad32(ADDR_B))], word("1"), None),
        log(1, transfer_topics(ADDR_A, ADDR_B), "0x01".to_string(), None),
        log(2, vec![Some(TRANSFER_TOPIC.to_string()), Some("0xzz".to_string()), Some(pad32(ADDR_B))], word("1"), None),
        log(3, vec![Some(TRANSFER_TOPIC.to_string()), None, Some(pad32(ADDR_B))], word("1"), None),
        log(4, transfer_topics(ADDR_B, ADDR_A), word("2a"), None),
    ];
    let out = parser.parse(&logs);
    assert_eq!(out.transfers.len(), 1);
    assert_eq!(out.transfers[0].log_index, 4);
    assert_eq!(out.transfers[0].value, "42");
    assert_eq!(out.parsed_logs.len(), 5);
}

#[test]
fn fetch_takes_unset_and_false_flags_only() {
    let parser = ERC20TransfersParser {};
    let logs = vec![
        log(0, vec![], word("1"), Some(true)),
        log(1, vec![], word("1"), None),
        log(2, vec![], word("1"), Some(false)),
        log(3, vec![], word("1"), Some(true)),
    ];
    let page = parser.fetch(&logs);
    let indices: Vec<i64> = page.iter().map(|l| l.log_index).collect();
    assert_eq!(indices, vec![1, 2]);
    assert_eq!(page[0].erc20_transfers_parsed, None);
    assert_eq!(page[1].erc20_transfers_parsed, Some(false));
}

#[test]
fn fetch_is_bounded_by_the_page_size() {
    let parser = ERC20TransfersParser {};
    let logs: Vec<TransactionLog> = (0..(PAGE_SIZE as i64 + 5)).map(|i| log(i, vec![], String::new(), None)).collect();
    let page = parser.fetch(&logs);
    assert_eq!(page.len(), PAGE_SIZE);
    assert_eq!(page[PAGE_SIZE - 1].log_index, PAGE_SIZE as i64 - 1);
}
