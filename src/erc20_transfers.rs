//! Decoding of ERC-20 `Transfer` event logs into transfer records.
use crate::abi::{
    decimal_text, decode_address, decode_uint256, event_topic, event_topic_text, hex_to_word,
    hex_word, be_value, lemma_hex_word_len, prefixed_hex, AbiKind,
};
use crate::records::TransactionLog;
use vstd::prelude::*;

verus! {

/// The most logs that one decoding pass takes.
pub const PAGE_SIZE: usize = 50000;

/// A token transfer, keyed like the log it was decoded from.
#[derive(Clone, Debug, PartialEq)]
pub struct DatabaseEVMErc20Transfer {
    pub hash: String,
    pub log_index: i64,
    pub token: String,
    pub from_address: String,
    pub to_address: String,
    pub value: String,
    pub erc20_tokens_parced: Option<bool>,
}

/// A transfer as plain values.
pub struct TransferView {
    pub hash: Seq<char>,
    pub log_index: i64,
    pub token: Seq<char>,
    pub from_address: Seq<char>,
    pub to_address: Seq<char>,
    pub value: Seq<char>,
    pub erc20_tokens_parced: Option<bool>,
}

impl View for DatabaseEVMErc20Transfer {
    type V = TransferView;

    open spec fn view(&self) -> TransferView {
        TransferView {
            hash: self.hash@,
            log_index: self.log_index,
            token: self.token@,
            from_address: self.from_address@,
            to_address: self.to_address@,
            value: self.value@,
            erc20_tokens_parced: self.erc20_tokens_parced,
        }
    }
}

/// The decoder of ERC-20 transfers.
pub struct ERC20TransfersParser {}

/// What one decoding pass writes back: the transfers found, and every log of
/// the page with its parse flag set.
pub struct ParsedLogs {
    pub transfers: Vec<DatabaseEVMErc20Transfer>,
    pub parsed_logs: Vec<TransactionLog>,
}

/// The topic of `Transfer(address,address,uint256)`.
pub open spec fn transfer_topic() -> Seq<char> {
    event_topic_text(
        seq!['T', 'r', 'a', 'n', 's', 'f', 'e', 'r'],
        seq![AbiKind::Address, AbiKind::Address, AbiKind::Uint256],
    )
}

/// The transfer that a log records, if it has exactly three topics, the first
/// is the `Transfer` topic, the other two are 32-byte words holding the
/// addresses in their low 20 bytes, and the data is one 32-byte word.
pub open spec fn decoded_transfer(l: TransactionLog) -> Option<TransferView> {
    if l.topics@.len() != 3 {
        None
    } else {
        match (l.topics@[0], l.topics@[1], l.topics@[2]) {
            (Some(t0), Some(t1), Some(t2)) => {
                if t0@ != transfer_topic() {
                    None
                } else {
                    match (hex_word(t1@), hex_word(t2@), hex_word(l.data@)) {
                        (Some(from), Some(to), Some(amount)) => Some(
                            TransferView {
                                hash: l.hash@,
                                log_index: l.log_index,
                                token: l.address@,
                                from_address: prefixed_hex(from.subrange(12, 32)),
                                to_address: prefixed_hex(to.subrange(12, 32)),
                                value: decimal_text(be_value(amount)),
                                erc20_tokens_parced: Some(false),
                            },
                        ),
                        _ => None,
                    }
                }
            },
            _ => None,
        }
    }
}

/// The transfers that the logs record, in order.
pub open spec fn transfers_of(logs: Seq<TransactionLog>) -> Seq<TransferView>
    decreases logs.len(),
{
    if logs.len() == 0 {
        Seq::empty()
    } else {
        match decoded_transfer(logs.last()) {
            Some(t) => transfers_of(logs.drop_last()).push(t),
            None => transfers_of(logs.drop_last()),
        }
    }
}

/// `b` is `a` with the parse flag `flag`.
pub open spec fn same_log_flagged(a: TransactionLog, b: TransactionLog, flag: Option<bool>) -> bool {
    &&& b.hash@ == a.hash@
    &&& b.log_index == a.log_index
    &&& b.address@ == a.address@
    &&& b.topics@ == a.topics@
    &&& b.data@ == a.data@
    &&& b.erc20_transfers_parsed == flag
}

/// Whether a log still waits for decoding: its parse flag is unset or false.
pub open spec fn awaits_parsing(l: TransactionLog) -> bool {
    l.erc20_transfers_parsed != Some(true)
}

/// The logs that wait for decoding, in order.
pub open spec fn awaiting(logs: Seq<TransactionLog>) -> Seq<TransactionLog> {
    logs.filter(|l: TransactionLog| awaits_parsing(l))
}

fn copy_topics(topics: &Vec<Option<String>>) -> (r: Vec<Option<String>>)
    ensures
        r@ == topics@,
{
    let mut r: Vec<Option<String>> = Vec::new();
    let mut i: usize = 0;
    while i < topics.len()
        invariant
            i <= topics@.len(),
            r@ == topics@.subrange(0, i as int),
        decreases topics@.len() - i,
    {
        let t: Option<String> = match &topics[i] {
            Some(s) => Some(s.clone()),
            None => None,
        };
        r.push(t);
        assert(topics@.subrange(0, i + 1) == topics@.subrange(0, i as int).push(topics@[i as int]));
        i = i + 1;
    }
    r
}

/// A copy of the log with the parse flag `flag`.
pub fn copy_log_flagged(l: &TransactionLog, flag: Option<bool>) -> (r: TransactionLog)
    ensures
        same_log_flagged(*l, r, flag),
{
    TransactionLog {
        hash: l.hash.clone(),
        log_index: l.log_index,
        address: l.address.clone(),
        topics: copy_topics(&l.topics),
        data: l.data.clone(),
        erc20_transfers_parsed: flag,
    }
}

/// Decodes one log into a transfer, or `None` when it is not a well-formed
/// ERC-20 `Transfer` event.
pub fn decode_transfer(l: &TransactionLog, topic: &String) -> (r: Option<DatabaseEVMErc20Transfer>)
    requires
        topic@ == transfer_topic(),
    ensures
        r.is_some() == decoded_transfer(*l).is_some(),
        r.is_some() ==> r.unwrap()@ == decoded_transfer(*l).unwrap(),
{
    if l.topics.len() != 3 {
        return None;
    }
    let t0 = match &l.topics[0] {
        Some(t) => t,
        None => return None,
    };
    let t1 = match &l.topics[1] {
        Some(t) => t,
        None => return None,
    };
    let t2 = match &l.topics[2] {
        Some(t) => t,
        None => return None,
    };
    if *t0 != *topic {
        return None;
    }
    let from_word = match hex_to_word(t1) {
        Some(w) => w,
        None => return None,
    };
    let to_word = match hex_to_word(t2) {
        Some(w) => w,
        None => return None,
    };
    let amount_word = match hex_to_word(&l.data) {
        Some(w) => w,
        None => return None,
    };
    proof {
        lemma_hex_word_len(t1@);
        lemma_hex_word_len(t2@);
        lemma_hex_word_len(l.data@);
    }
    let from_address = match decode_address(&from_word) {
        Some(a) => a,
        None => return None,
    };
    let to_address = match decode_address(&to_word) {
        Some(a) => a,
        None => return None,
    };
    let value = match decode_uint256(&amount_word) {
        Some(v) => v,
        None => return None,
    };
    let t = DatabaseEVMErc20Transfer {
        hash: l.hash.clone(),
        log_index: l.log_index,
        token: l.address.clone(),
        from_address,
        to_address,
        value,
        erc20_tokens_parced: Some(false),
    };
    assert(amount_word@.subrange(0, 32) == amount_word@);
    assert(t@ == decoded_transfer(*l).unwrap());
    Some(t)
}

impl ERC20TransfersParser {
    /// The page of logs to decode: those whose parse flag is unset or false,
    /// in order, at most `PAGE_SIZE` of them.
    pub fn fetch(&self, logs: &Vec<TransactionLog>) -> (r: Vec<TransactionLog>)
        ensures
            r@.len() == if awaiting(logs@).len() < PAGE_SIZE { awaiting(logs@).len() } else { PAGE_SIZE as nat },
            forall|k: int| 0 <= k < r@.len() ==> same_log_flagged(awaiting(logs@)[k], #[trigger] r@[k], awaiting(logs@)[k].erc20_transfers_parsed),
    {
        let mut r: Vec<TransactionLog> = Vec::new();
        let mut i: usize = 0;
        while i < logs.len() && r.len() < PAGE_SIZE
            invariant
                i <= logs@.len(),
                r@.len() <= PAGE_SIZE,
                r@.len() == awaiting(logs@.subrange(0, i as int)).len(),
                forall|k: int| 0 <= k < r@.len() ==> same_log_flagged(awaiting(logs@.subrange(0, i as int))[k], #[trigger] r@[k], awaiting(logs@.subrange(0, i as int))[k].erc20_transfers_parsed),
            decreases logs@.len() - i,
        {
            let ghost prefix = logs@.subrange(0, i as int);
            assert(logs@.subrange(0, i + 1) == prefix.push(logs@[i as int]));
            proof {
                prefix.lemma_filter_push(logs@[i as int], |l: TransactionLog| awaits_parsing(l));
            }
            let l = &logs[i];
            match l.erc20_transfers_parsed {
                Some(true) => {},
                _ => {
                    let copy = copy_log_flagged(l, l.erc20_transfers_parsed);
                    r.push(copy);
                },
            }
            i = i + 1;
        }
        proof {
            if i < logs@.len() {
                lemma_awaiting_prefix(logs@, i as int);
            } else {
                assert(logs@.subrange(0, i as int) == logs@);
            }
        }
        r
    }

    /// Decodes a page of logs. Every log comes back with its parse flag set to
    /// true, whether or not it decodes; each log that records an ERC-20
    /// transfer gives one transfer record, in the order of the logs.
    pub fn parse(&self, logs: &Vec<TransactionLog>) -> (r: ParsedLogs)
        ensures
            r.transfers@.map_values(|t: DatabaseEVMErc20Transfer| t@) == transfers_of(logs@),
            r.parsed_logs@.len() == logs@.len(),
            forall|k: int| 0 <= k < logs@.len() ==> same_log_flagged(logs@[k], #[trigger] r.parsed_logs@[k], Some(true)),
    {
        let kinds = vec![AbiKind::Address, AbiKind::Address, AbiKind::Uint256];
        let topic = event_topic("Transfer", &kinds);
        proof {
            reveal_strlit("Transfer");
            assert(kinds@ == seq![AbiKind::Address, AbiKind::Address, AbiKind::Uint256]);
            assert("Transfer"@ == seq!['T', 'r', 'a', 'n', 's', 'f', 'e', 'r']);
        }
        let mut transfers: Vec<DatabaseEVMErc20Transfer> = Vec::new();
        let mut parsed_logs: Vec<TransactionLog> = Vec::new();
        let mut i: usize = 0;
        while i < logs.len()
            invariant
                i <= logs@.len(),
                topic@ == transfer_topic(),
                transfers@.map_values(|t: DatabaseEVMErc20Transfer| t@) == transfers_of(logs@.subrange(0, i as int)),
                parsed_logs@.len() == i,
                forall|k: int| 0 <= k < i ==> same_log_flagged(logs@[k], #[trigger] parsed_logs@[k], Some(true)),
            decreases logs@.len() - i,
        {
            let l = &logs[i];
            parsed_logs.push(copy_log_flagged(l, Some(true)));
            let ghost before = transfers@;
            let decoded = decode_transfer(l, &topic);
            match decoded {
                Some(t) => {
                    transfers.push(t);
                    assert(transfers@.map_values(|t: DatabaseEVMErc20Transfer| t@) == before.map_values(|t: DatabaseEVMErc20Transfer| t@).push(t@));
                },
                None => {},
            }
            assert(logs@.subrange(0, i + 1).drop_last() == logs@.subrange(0, i as int));
            i = i + 1;
        }
        assert(logs@.subrange(0, logs@.len() as int) == logs@);
        ParsedLogs { transfers, parsed_logs }
    }
}

/// A log with other than three topics, such as two or four, records no
/// transfer; `parse` still returns it with its parse flag set to true.
pub proof fn lemma_wrong_topic_count_gives_no_transfer(l: TransactionLog)
    requires
        l.topics@.len() != 3,
    ensures
        decoded_transfer(l).is_none(),
        transfers_of(seq![l]) == Seq::<TransferView>::empty(),
{
    let one = seq![l];
    assert(one.drop_last() == Seq::<TransactionLog>::empty());
    assert(one.last() == l);
    assert(transfers_of(one) == transfers_of(one.drop_last()));
}

proof fn lemma_awaiting_prefix(logs: Seq<TransactionLog>, i: int)
    requires
        0 <= i <= logs.len(),
    ensures
        awaiting(logs.subrange(0, i)).len() <= awaiting(logs).len(),
        forall|k: int| 0 <= k < awaiting(logs.subrange(0, i)).len() ==> #[trigger] awaiting(logs.subrange(0, i))[k] == awaiting(logs)[k],
    decreases logs.len() - i,
{
    if i < logs.len() {
        lemma_awaiting_prefix(logs, i + 1);
        let prefix = logs.subrange(0, i);
        assert(logs.subrange(0, i + 1) == prefix.push(logs[i]));
        prefix.lemma_filter_push(logs[i], |l: TransactionLog| awaits_parsing(l));
        assert forall|k: int| 0 <= k < awaiting(prefix).len() implies #[trigger] awaiting(prefix)[k] == awaiting(logs)[k] by {
            assert(awaiting(prefix)[k] == awaiting(logs.subrange(0, i + 1))[k]);
        }
    } else {
        assert(logs.subrange(0, i) == logs);
    }
}

} // verus!
