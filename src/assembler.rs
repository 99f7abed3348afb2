//! Validation of one block's records before anything of it is stored.
use crate::records::{Block, Contract, Receipt, Transaction, TransactionLog};
use vstd::prelude::*;

verus! {

/// What a receipt call for one transaction returns: the receipt, the logs it
/// produced, and the contract it deployed, if any.
pub struct TransactionReceiptData {
    pub receipt: Receipt,
    pub logs: Vec<TransactionLog>,
    pub contract: Option<Contract>,
}

/// The receipts of a block with their logs and contract creations.
pub struct ReceiptBatch {
    pub receipts: Vec<Receipt>,
    pub logs: Vec<TransactionLog>,
    pub contracts: Vec<Contract>,
}

/// All the records of one block.
pub struct BlockBundle {
    pub block: Block,
    pub transactions: Vec<Transaction>,
    pub receipts: Vec<Receipt>,
    pub logs: Vec<TransactionLog>,
    pub contracts: Vec<Contract>,
}

impl BlockBundle {
    /// The block declares as many transactions as the bundle holds, and holds a
    /// receipt for each of them.
    pub open spec fn complete(&self) -> bool {
        &&& self.block.transactions == self.transactions@.len()
        &&& self.receipts@.len() == self.transactions@.len()
    }
}

/// The receipts among the per-transaction results, in order.
pub open spec fn receipts_of(s: Seq<Option<TransactionReceiptData>>) -> Seq<Receipt>
    decreases s.len(),
{
    if s.len() == 0 {
        Seq::empty()
    } else {
        match s[0] {
            Some(d) => seq![d.receipt] + receipts_of(s.drop_first()),
            None => receipts_of(s.drop_first()),
        }
    }
}

/// The logs among the per-transaction results, in order.
pub open spec fn logs_of(s: Seq<Option<TransactionReceiptData>>) -> Seq<TransactionLog>
    decreases s.len(),
{
    if s.len() == 0 {
        Seq::empty()
    } else {
        match s[0] {
            Some(d) => d.logs@ + logs_of(s.drop_first()),
            None => logs_of(s.drop_first()),
        }
    }
}

/// The contract creations among the per-transaction results, in order.
pub open spec fn contracts_of(s: Seq<Option<TransactionReceiptData>>) -> Seq<Contract>
    decreases s.len(),
{
    if s.len() == 0 {
        Seq::empty()
    } else {
        match s[0] {
            Some(d) => match d.contract {
                Some(c) => seq![c] + contracts_of(s.drop_first()),
                None => contracts_of(s.drop_first()),
            },
            None => contracts_of(s.drop_first()),
        }
    }
}

/// Whether the block declares exactly as many transactions as were fetched.
pub fn transactions_complete(block: &Block, transactions: &Vec<Transaction>) -> (r: bool)
    ensures
        r == (block.transactions == transactions@.len()),
{
    transactions.len() as u64 <= i64::MAX as u64 && block.transactions == transactions.len() as i64
}

/// Gathers the results of one receipt call per transaction, in order, skipping
/// each transaction whose call returned nothing.
pub fn collect_receipts(results: Vec<Option<TransactionReceiptData>>) -> (r: ReceiptBatch)
    ensures
        r.receipts@ == receipts_of(results@),
        r.logs@ == logs_of(results@),
        r.contracts@ == contracts_of(results@),
{
    let mut receipts: Vec<Receipt> = Vec::new();
    let mut logs: Vec<TransactionLog> = Vec::new();
    let mut contracts: Vec<Contract> = Vec::new();
    let mut rest = results;
    while rest.len() > 0
        invariant
            receipts@ + receipts_of(rest@) == receipts_of(results@),
            logs@ + logs_of(rest@) == logs_of(results@),
            contracts@ + contracts_of(rest@) == contracts_of(results@),
        decreases rest@.len(),
    {
        let ghost before = rest@;
        let first = rest.remove(0);
        assert(rest@ == before.drop_first());
        match first {
            Some(data) => {
                let TransactionReceiptData { receipt, logs: mut more_logs, contract } = data;
                let ghost r0 = receipts@;
                let ghost l0 = logs@;
                let ghost m0 = more_logs@;
                receipts.push(receipt);
                logs.append(&mut more_logs);
                assert(r0.push(receipt) + receipts_of(rest@) == r0 + (seq![receipt] + receipts_of(rest@)));
                assert(l0 + m0 + logs_of(rest@) == l0 + (m0 + logs_of(rest@)));
                match contract {
                    Some(c) => {
                        let ghost c0 = contracts@;
                        contracts.push(c);
                        assert(c0.push(c) + contracts_of(rest@) == c0 + (seq![c] + contracts_of(rest@)));
                    },
                    None => {},
                }
            },
            None => {},
        }
    }
    assert(receipts@ + receipts_of(rest@) == receipts@);
    assert(logs@ + logs_of(rest@) == logs@);
    assert(contracts@ + contracts_of(rest@) == contracts@);
    ReceiptBatch { receipts, logs, contracts }
}

/// Assembles the records of one block, or rejects the block: it is rejected
/// when it declares another number of transactions than were fetched, when
/// its receipts could not be fetched, or when there are not as many receipts
/// as transactions.
pub fn assemble_block(block: Block, transactions: Vec<Transaction>, receipts: Option<ReceiptBatch>) -> (r: Option<BlockBundle>)
    ensures
        r.is_some() <==> (block.transactions == transactions@.len() && receipts.is_some()
            && receipts.unwrap().receipts@.len() == transactions@.len()),
        r.is_some() ==> ({
            let b = r.unwrap();
            let rb = receipts.unwrap();
            &&& b.block == block
            &&& b.transactions@ == transactions@
            &&& b.receipts@ == rb.receipts@
            &&& b.logs@ == rb.logs@
            &&& b.contracts@ == rb.contracts@
            &&& b.complete()
        }),
{
    if !transactions_complete(&block, &transactions) {
        return None;
    }
    match receipts {
        Some(batch) => {
            if batch.receipts.len() != transactions.len() {
                None
            } else {
                let ReceiptBatch { receipts, logs, contracts } = batch;
                Some(BlockBundle { block, transactions, receipts, logs, contracts })
            }
        },
        None => None,
    }
}

} // verus!
