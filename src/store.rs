//! What the store is handed: chunked statements, merged block bundles, the
//! indexed-block checkpoint, and the parse-flag write rules.
use crate::assembler::BlockBundle;
use crate::records::{Block, Contract, Receipt, Transaction, TransactionLog};
use crate::schedule::is_missing;
use std::collections::HashSet;
use vstd::prelude::*;

verus! {

broadcast use vstd::std_specs::hash::group_hash_axioms;

/// The most bound parameters that one statement of the storage layer takes.
pub const MAX_STATEMENT_PARAMS: usize = 65535;

/// The rows that one insert statement carries for records of `field_count` fields.
pub open spec fn rows_per_statement(field_count: int) -> int {
    MAX_STATEMENT_PARAMS as int / field_count
}

/// The `k`-th chunk of `len` rows: `[k * rows, min((k + 1) * rows, len))`.
pub open spec fn chunk_bounds(len: int, rows: int, k: int) -> (usize, usize) {
    let s = k * rows;
    let e = if s + rows < len { s + rows } else { len };
    (s as usize, e as usize)
}

/// Cuts `len` rows into chunks so that rows times `field_count` stays within
/// the statement parameter ceiling. The bounds depend on the two numbers alone.
pub fn get_chunks(len: usize, field_count: usize) -> (r: Vec<(usize, usize)>)
    requires
        0 < field_count <= MAX_STATEMENT_PARAMS,
    ensures
        r@.len() == (len + rows_per_statement(field_count as int) - 1) / rows_per_statement(field_count as int),
        forall|k: int| 0 <= k < r@.len() ==> #[trigger] r@[k] == chunk_bounds(len as int, rows_per_statement(field_count as int), k),
        forall|k: int| 0 <= k < r@.len() ==> 0 < (#[trigger] r@[k]).1 - r@[k].0 && (r@[k].1 - r@[k].0) * field_count <= MAX_STATEMENT_PARAMS,
{
    let rows: usize = MAX_STATEMENT_PARAMS / field_count;
    assert(rows >= 1 && rows * field_count <= MAX_STATEMENT_PARAMS) by (nonlinear_arith)
        requires
            rows == MAX_STATEMENT_PARAMS as int / field_count as int,
            0 < field_count <= MAX_STATEMENT_PARAMS,
    ;
    assert((rows as int - 1) / rows as int == 0) by (nonlinear_arith)
        requires
            rows >= 1,
    ;
    let mut r: Vec<(usize, usize)> = Vec::new();
    let mut start: usize = 0;
    assert(r@.len() * rows == 0) by (nonlinear_arith)
        requires
            r@.len() == 0,
    ;
    while start < len
        invariant
            rows == rows_per_statement(field_count as int),
            0 < field_count,
            1 <= rows,
            rows * field_count <= MAX_STATEMENT_PARAMS,
            start == r@.len() * rows || (start == len && r@.len() * rows >= len),
            start <= len,
            start < len ==> r@.len() <= (len as int + rows as int - 1) / rows as int,
            start >= len ==> r@.len() == (len as int + rows as int - 1) / rows as int,
            forall|k: int| 0 <= k < r@.len() ==> #[trigger] r@[k] == chunk_bounds(len as int, rows as int, k),
            forall|k: int| 0 <= k < r@.len() ==> 0 < (#[trigger] r@[k]).1 - r@[k].0 && (r@[k].1 - r@[k].0) * field_count <= MAX_STATEMENT_PARAMS,
        decreases len - start,
    {
        let end: usize = if len - start > rows {
            start + rows
        } else {
            len
        };
        let ghost k = r@.len() as int;
        r.push((start, end));
        proof {
            assert((end - start) * field_count <= rows * field_count) by (nonlinear_arith)
                requires
                    end - start <= rows,
                    0 < field_count,
            ;
            assert((k + 1) * rows == k * rows + rows) by (nonlinear_arith);
            lemma_chunk_count(len as int, rows as int, k);
        }
        start = end;
    }
    r
}

proof fn lemma_chunk_count(len: int, rows: int, k: int)
    requires
        1 <= rows,
        0 <= k,
        k * rows < len,
    ensures
        k + 1 <= (len + rows - 1) / rows,
        (k + 1) * rows >= len ==> k + 1 == (len + rows - 1) / rows,
{
    assert((k + 1) * rows == k * rows + rows) by (nonlinear_arith);
    assert(k + 1 <= (len + rows - 1) / rows) by (nonlinear_arith)
        requires
            1 <= rows,
            k * rows < len,
            (k + 1) * rows == k * rows + rows,
    ;
    if (k + 1) * rows >= len {
        assert((len + rows - 1) / rows <= k + 1) by (nonlinear_arith)
            requires
                1 <= rows,
                (k + 1) * rows >= len,
    ;
    }
}

/// The records of several blocks, merged for one store call.
pub struct StoreBatch {
    pub blocks: Vec<Block>,
    pub transactions: Vec<Transaction>,
    pub receipts: Vec<Receipt>,
    pub logs: Vec<TransactionLog>,
    pub contracts: Vec<Contract>,
}

/// The bundles among the results, in order.
pub open spec fn accepted(s: Seq<Option<BlockBundle>>) -> Seq<BlockBundle>
    decreases s.len(),
{
    if s.len() == 0 {
        Seq::empty()
    } else {
        match s[0] {
            Some(b) => seq![b] + accepted(s.drop_first()),
            None => accepted(s.drop_first()),
        }
    }
}

pub open spec fn blocks_of(s: Seq<BlockBundle>) -> Seq<Block>
    decreases s.len(),
{
    if s.len() == 0 { Seq::empty() } else { seq![s[0].block] + blocks_of(s.drop_first()) }
}

pub open spec fn transactions_of(s: Seq<BlockBundle>) -> Seq<Transaction>
    decreases s.len(),
{
    if s.len() == 0 { Seq::empty() } else { s[0].transactions@ + transactions_of(s.drop_first()) }
}

pub open spec fn receipts_of(s: Seq<BlockBundle>) -> Seq<Receipt>
    decreases s.len(),
{
    if s.len() == 0 { Seq::empty() } else { s[0].receipts@ + receipts_of(s.drop_first()) }
}

pub open spec fn logs_of(s: Seq<BlockBundle>) -> Seq<TransactionLog>
    decreases s.len(),
{
    if s.len() == 0 { Seq::empty() } else { s[0].logs@ + logs_of(s.drop_first()) }
}

pub open spec fn contracts_of(s: Seq<BlockBundle>) -> Seq<Contract>
    decreases s.len(),
{
    if s.len() == 0 { Seq::empty() } else { s[0].contracts@ + contracts_of(s.drop_first()) }
}

/// The transaction counts that the blocks declare, added up.
pub open spec fn declared_total(blocks: Seq<Block>) -> int
    decreases blocks.len(),
{
    if blocks.len() == 0 { 0 } else { blocks[0].transactions + declared_total(blocks.drop_first()) }
}

/// Merges the accepted bundles of a batch, in order, for one store call;
/// rejected blocks contribute nothing.
pub fn merge_bundles(results: Vec<Option<BlockBundle>>) -> (r: StoreBatch)
    ensures
        r.blocks@ == blocks_of(accepted(results@)),
        r.transactions@ == transactions_of(accepted(results@)),
        r.receipts@ == receipts_of(accepted(results@)),
        r.logs@ == logs_of(accepted(results@)),
        r.contracts@ == contracts_of(accepted(results@)),
{
    let mut blocks: Vec<Block> = Vec::new();
    let mut transactions: Vec<Transaction> = Vec::new();
    let mut receipts: Vec<Receipt> = Vec::new();
    let mut logs: Vec<TransactionLog> = Vec::new();
    let mut contracts: Vec<Contract> = Vec::new();
    let mut rest = results;
    while rest.len() > 0
        invariant
            blocks@ + blocks_of(accepted(rest@)) == blocks_of(accepted(results@)),
            transactions@ + transactions_of(accepted(rest@)) == transactions_of(accepted(results@)),
            receipts@ + receipts_of(accepted(rest@)) == receipts_of(accepted(results@)),
            logs@ + logs_of(accepted(rest@)) == logs_of(accepted(results@)),
            contracts@ + contracts_of(accepted(rest@)) == contracts_of(accepted(results@)),
        decreases rest@.len(),
    {
        let ghost before = rest@;
        let first = rest.remove(0);
        assert(rest@ == before.drop_first());
        match first {
            Some(bundle) => {
                let ghost b = bundle;
                let ghost one = seq![b] + accepted(rest@);
                assert(one.drop_first() == accepted(rest@));
                let BlockBundle { block, transactions: mut t, receipts: mut rc, logs: mut l, contracts: mut c } = bundle;
                let ghost (b0, t0, r0, l0, c0) = (blocks@, transactions@, receipts@, logs@, contracts@);
                blocks.push(block);
                transactions.append(&mut t);
                receipts.append(&mut rc);
                logs.append(&mut l);
                contracts.append(&mut c);
                assert(b0.push(b.block) + blocks_of(accepted(rest@)) == b0 + blocks_of(one));
                assert(t0 + b.transactions@ + transactions_of(accepted(rest@)) == t0 + transactions_of(one));
                assert(r0 + b.receipts@ + receipts_of(accepted(rest@)) == r0 + receipts_of(one));
                assert(l0 + b.logs@ + logs_of(accepted(rest@)) == l0 + logs_of(one));
                assert(c0 + b.contracts@ + contracts_of(accepted(rest@)) == c0 + contracts_of(one));
            },
            None => {},
        }
    }
    assert(blocks@ + blocks_of(accepted(rest@)) == blocks@);
    assert(transactions@ + transactions_of(accepted(rest@)) == transactions@);
    assert(receipts@ + receipts_of(accepted(rest@)) == receipts@);
    assert(logs@ + logs_of(accepted(rest@)) == logs@);
    assert(contracts@ + contracts_of(accepted(rest@)) == contracts@);
    StoreBatch { blocks, transactions, receipts, logs, contracts }
}

/// The numbers of the blocks.
pub open spec fn block_numbers(blocks: Seq<Block>) -> Set<i64> {
    blocks.map_values(|b: Block| b.number).to_set()
}

/// Adds the numbers of the stored blocks to the indexed-block set.
pub fn checkpoint(indexed: &mut HashSet<i64>, blocks: &Vec<Block>)
    ensures
        final(indexed)@ == old(indexed)@.union(block_numbers(blocks@)),
{
    let mut i: usize = 0;
    while i < blocks.len()
        invariant
            i <= blocks@.len(),
            indexed@ == old(indexed)@.union(block_numbers(blocks@.subrange(0, i as int))),
        decreases blocks@.len() - i,
    {
        let n = blocks[i].number;
        indexed.insert(n);
        proof {
            let pre = blocks@.subrange(0, i as int);
            assert(blocks@.subrange(0, i + 1) == pre.push(blocks@[i as int]));
            assert(pre.push(blocks@[i as int]).map_values(|b: Block| b.number) == pre.map_values(
                |b: Block| b.number,
            ).push(n));
            pre.map_values(|b: Block| b.number).lemma_push_to_set_commute(n);
        }
        i = i + 1;
    }
    assert(blocks@.subrange(0, blocks@.len() as int) == blocks@);
}

/// A checkpoint takes out of the gap exactly the numbers it adds, and keeps
/// every number already indexed: a stored block is never fetched again.
pub proof fn lemma_checkpoint_gap(start: int, tip: int, indexed: Set<i64>, added: Set<i64>)
    ensures
        indexed.subset_of(indexed.union(added)),
        forall|n: i64|
            #[trigger] is_missing(start, tip, indexed.union(added), n) <==> (is_missing(start, tip, indexed, n)
                && !added.contains(n)),
{
}

/// A checkpoint repeated with the same blocks changes nothing.
pub proof fn lemma_checkpoint_idempotent(indexed: Set<i64>, added: Set<i64>)
    ensures
        indexed.union(added).union(added) == indexed.union(added),
{
    assert(indexed.union(added).union(added) =~= indexed.union(added));
}

/// Once every missing number has been stored and checkpointed, nothing of
/// `[start, tip)` is missing: the indexed set covers the whole range.
pub proof fn lemma_backfill_completes(start: int, tip: int, indexed: Set<i64>, added: Set<i64>)
    requires
        forall|n: i64| is_missing(start, tip, indexed, n) ==> added.contains(n),
    ensures
        forall|n: i64| start <= n < tip ==> #[trigger] indexed.union(added).contains(n),
{
    assert forall|n: i64| start <= n < tip implies #[trigger] indexed.union(added).contains(n) by {
        if !indexed.contains(n) {
            assert(is_missing(start, tip, indexed, n));
        }
    }
}

/// A store batch merged from complete bundles persists as many transactions as
/// its blocks declare, and one receipt for each of them.
pub proof fn lemma_merged_batch_complete(results: Seq<Option<BlockBundle>>)
    requires
        forall|k: int| 0 <= k < results.len() && (#[trigger] results[k]).is_some() ==> results[k].unwrap().complete(),
    ensures
        transactions_of(accepted(results)).len() == declared_total(blocks_of(accepted(results))),
        receipts_of(accepted(results)).len() == transactions_of(accepted(results)).len(),
    decreases results.len(),
{
    if results.len() > 0 {
        let rest = results.drop_first();
        assert forall|k: int| 0 <= k < rest.len() && (#[trigger] rest[k]).is_some() implies rest[k].unwrap().complete() by {
            assert(rest[k] == results[k + 1]);
        }
        lemma_merged_batch_complete(rest);
        match results[0] {
            Some(b) => {
                let one = seq![b] + accepted(rest);
                assert(one.drop_first() == accepted(rest));
                assert(blocks_of(one).drop_first() == blocks_of(accepted(rest)));
            },
            None => {},
        }
    }
}

/// How a write treats a log row that exists already: a block store inserts
/// or ignores; the decoder's write sets the parse flag to true on conflict.
#[derive(Clone, Copy, Debug, PartialEq, Eq)]
pub enum LogWrite {
    InsertOrIgnore,
    MarkParsed,
}

/// The parse flag of a log row after a write of a row with flag `incoming`,
/// where `existing` is the stored row's flag, if the row exists.
pub open spec fn flag_after_write(existing: Option<Option<bool>>, incoming: Option<bool>, write: LogWrite) -> Option<bool> {
    match existing {
        None => incoming,
        Some(flag) => match write {
            LogWrite::InsertOrIgnore => flag,
            LogWrite::MarkParsed => Some(true),
        },
    }
}

/// The parse flag after a run of writes, each a flag and a kind of write.
pub open spec fn flag_after_writes(existing: Option<bool>, writes: Seq<(Option<bool>, LogWrite)>) -> Option<bool>
    decreases writes.len(),
{
    if writes.len() == 0 {
        existing
    } else {
        flag_after_writes(
            flag_after_write(Some(existing), writes[0].0, writes[0].1),
            writes.drop_first(),
        )
    }
}

/// The parse flag that a write leaves in the log table.
pub fn stored_parse_flag(existing: Option<Option<bool>>, incoming: Option<bool>, write: LogWrite) -> (r: Option<bool>)
    ensures
        r == flag_after_write(existing, incoming, write),
{
    match existing {
        None => incoming,
        Some(flag) => match write {
            LogWrite::InsertOrIgnore => flag,
            LogWrite::MarkParsed => Some(true),
        },
    }
}

/// A table after an insert-or-ignore of `row` under `key`: a row whose key
/// exists already is kept as it is.
pub open spec fn insert_or_ignore<K, R>(table: Map<K, R>, key: K, row: R) -> Map<K, R> {
    if table.contains_key(key) {
        table
    } else {
        table.insert(key, row)
    }
}

/// Storing the same record twice leaves one row, the same as storing it once;
/// a repeated log write leaves the parse flag as the first one did (the
/// decoder's writes carry the flag true).
pub proof fn lemma_store_idempotent<K, R>(
    table: Map<K, R>,
    key: K,
    row: R,
    existing: Option<Option<bool>>,
    incoming: Option<bool>,
    write: LogWrite,
)
    ensures
        insert_or_ignore(insert_or_ignore(table, key, row), key, row) == insert_or_ignore(table, key, row),
        insert_or_ignore(table, key, row).dom() == table.dom().insert(key),
        (write == LogWrite::MarkParsed ==> incoming == Some(true)) ==> flag_after_write(
            Some(flag_after_write(existing, incoming, write)),
            incoming,
            write,
        ) == flag_after_write(existing, incoming, write),
{
    if !table.contains_key(key) {
        assert(table.insert(key, row).dom() == table.dom().insert(key));
    } else {
        assert(table.dom().insert(key) == table.dom());
    }
}

/// Once a stored log's parse flag is true, no run of writes turns it back.
pub proof fn lemma_parse_flag_monotone(writes: Seq<(Option<bool>, LogWrite)>)
    ensures
        flag_after_writes(Some(true), writes) == Some(true),
    decreases writes.len(),
{
    if writes.len() > 0 {
        lemma_parse_flag_monotone(writes.drop_first());
    }
}

} // verus!
