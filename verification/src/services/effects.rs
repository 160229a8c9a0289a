//! What the procedures do, column by column, to the rows that they are about and to all
//! others.
use super::flow::{Flow, PayloadValue, Request};
use super::run::{run, Ending, Faults};
use super::store::{Param, Statement, Tables, TransactionDlq};
use super::transaction_processor::{retry_flow, scheduled};
use crate::time::Timestamp;
use vstd::prelude::*;

verus! {

/// Reading a single value reads it from the row whose identifier is bound to the statement,
/// and fails if there is no such row.
pub proof fn law_parameter_is_the_row_read<E>(
    tables: Tables,
    statement: Statement,
    id: u128,
    faults: Faults<E>,
    n: nat,
)
    requires
        statement is SelectAssetCode || statement is SelectTransactionId,
        statement.param_values() == seq![Param::Id(id)],
        (faults.at)(n) is None,
    ensures
        ({
            let reply = faults.reply(n, tables, Request::Run(statement));
            if statement is SelectAssetCode {
                if tables.transactions.dom().contains(id) {
                    reply is AssetCode && reply->AssetCode_0 == tables.transactions[id].asset_code
                } else {
                    reply is Failed && reply->Failed_0 == faults.missing
                }
            } else {
                if tables.dlq.dom().contains(id) {
                    reply is TransactionId && reply->TransactionId_0
                        == tables.dlq[id].transaction_id
                } else {
                    reply is Failed && reply->Failed_0 == faults.missing
                }
            }
        }),
{
    assert(statement.param_values()[0] == Param::Id(id));
}

/// Completing a transaction. If it exists and no statement fails, its status is completed
/// and its asset code as before, and what was cached for that code is dropped last. In any
/// case no other transaction and no entry of the queue changes; and where it did not
/// succeed, nothing does, and the error is the first one that came up.
pub proof fn law_completing<E>(tables: Tables, tx_id: u128, other: u128, faults: Faults<E>)
    ensures
        ({
            let outcome = run(tables, Flow::FetchAsset { tx_id }, faults, 0);
            let (before, after) = (tables.transactions, outcome.tables.transactions);
            &&& outcome.tables.dlq == tables.dlq
            &&& after.dom() == before.dom()
            &&& other != tx_id ==> after[other] == before[other]
            &&& match ((faults.at)(0), before.dom().contains(tx_id), (faults.at)(1)) {
                (Some(e), _, _) => outcome.ending == Ending::Failed(e) && after == before,
                (None, false, _) => outcome.ending == Ending::Failed(faults.missing) && after
                    == before,
                (None, true, Some(e)) => outcome.ending == Ending::Failed(e) && after == before,
                (None, true, None) => {
                    &&& outcome.ending is Succeeded
                    &&& after[tx_id].status is Completed
                    &&& after[tx_id].asset_code == before[tx_id].asset_code
                    &&& outcome.requests.len() == 3
                    &&& outcome.requests[0] == Request::<Seq<char>>::Run(
                        Statement::SelectAssetCode { tx_id },
                    )
                    &&& outcome.requests[1] == Request::<Seq<char>>::Run(
                        Statement::CompleteTransaction { tx_id },
                    )
                    &&& outcome.requests[2] matches Request::InvalidateCaches { asset_code }
                    &&& asset_code == before[tx_id].asset_code
                },
            }
        }),
{
    reveal_with_fuel(run, 4);
    let outcome = run(tables, Flow::FetchAsset { tx_id }, faults, 0);
    assert(outcome.tables.transactions.dom() =~= tables.transactions.dom());
}

/// Requeueing an entry. If it and its transaction exist and no statement fails, the
/// transaction's status is pending and its asset code as before, the entry is gone, and
/// what was cached for the code is dropped last. In any case no other transaction changes
/// and no other entry. The entry stays where it does not succeed.
pub proof fn law_requeueing<E>(
    tables: Tables,
    dlq_id: u128,
    other_tx: u128,
    other_entry: u128,
    faults: Faults<E>,
)
    requires
        tables.dlq.dom().contains(dlq_id),
    ensures
        ({
            let tx_id = tables.dlq[dlq_id].transaction_id;
            let outcome = run(tables, Flow::FetchTransaction { dlq_id }, faults, 0);
            let (before, after) = (tables.transactions, outcome.tables.transactions);
            &&& after.dom() == before.dom()
            &&& other_tx != tx_id ==> after[other_tx] == before[other_tx]
            &&& before.dom().contains(tx_id) ==> after[tx_id].asset_code
                == before[tx_id].asset_code
            &&& other_entry != dlq_id ==> {
                &&& outcome.tables.dlq.dom().contains(other_entry)
                    == tables.dlq.dom().contains(other_entry)
                &&& outcome.tables.dlq[other_entry] == tables.dlq[other_entry]
            }
            &&& outcome.tables.dlq.dom().contains(dlq_id) <==> !(outcome.ending is Succeeded)
            &&& outcome.tables.dlq.dom().contains(dlq_id) ==> outcome.tables.dlq[dlq_id]
                == tables.dlq[dlq_id]
            &&& outcome.ending is Succeeded <==> before.dom().contains(tx_id) && (faults.at)(
                0,
            ) is None && (faults.at)(1) is None && (faults.at)(2) is None && (faults.at)(3) is None
            &&& outcome.ending is Succeeded ==> {
                &&& after[tx_id].status is Pending
                &&& outcome.requests.len() == 5
                &&& outcome.requests[0] == Request::<Seq<char>>::Run(
                    Statement::SelectTransactionId { dlq_id },
                )
                &&& outcome.requests[1] == Request::<Seq<char>>::Run(
                    Statement::SelectAssetCode { tx_id },
                )
                &&& outcome.requests[2] == Request::<Seq<char>>::Run(
                    Statement::RequeueTransaction { tx_id },
                )
                &&& outcome.requests[3] == Request::<Seq<char>>::Run(
                    Statement::DeleteEntry { dlq_id },
                )
                &&& outcome.requests[4] matches Request::InvalidateCaches { asset_code }
                &&& asset_code == before[tx_id].asset_code
            }
        }),
{
    reveal_with_fuel(run, 6);
    let outcome = run(tables, Flow::FetchTransaction { dlq_id }, faults, 0);
    assert(outcome.tables.transactions.dom() =~= tables.transactions.dom());
}

/// Requeueing an entry that does not exist fails and changes nothing.
pub proof fn law_requeueing_nothing<E>(tables: Tables, dlq_id: u128, faults: Faults<E>)
    requires
        !tables.dlq.dom().contains(dlq_id),
    ensures
        run(tables, Flow::FetchTransaction { dlq_id }, faults, 0).tables == tables,
        run(tables, Flow::FetchTransaction { dlq_id }, faults, 0).ending is Failed,
{
}

/// The retry of an entry that has retries left, at `now`, with an instant for the next one.
/// If no statement fails, the entry holds one retry more, `now` as its last retry whatever
/// it held before, and the scheduled instant as its next; its transaction is pending; and
/// what was cached for its asset is dropped last. If the second statement fails, only the
/// transaction has changed; if the first, nothing has. Everything else stays as it is.
pub proof fn law_retrying<E>(
    tables: Tables,
    id: u128,
    notify: bool,
    max_retries: int,
    base_delay_secs: int,
    now: Timestamp,
    other_tx: u128,
    other_entry: u128,
    faults: Faults<E>,
)
    requires
        tables.dlq.dom().contains(id),
        tables.dlq[id].id == id,
        tables.dlq[id].retry_count < i32::MAX,
        tables.dlq[id].retry_count < max_retries,
        scheduled(now, tables.dlq[id].retry_count + 1, base_delay_secs) is Some,
    ensures
        ({
            let entry = tables.dlq[id];
            let flow = retry_flow(entry, notify, max_retries, base_delay_secs, now);
            let outcome = run(tables, flow, faults, 0);
            let (before, after) = (tables.transactions, outcome.tables.transactions);
            let row = outcome.tables.dlq[id];
            let tx_id = entry.transaction_id;
            let next = scheduled(now, entry.retry_count + 1, base_delay_secs);
            &&& outcome.ending is Succeeded <==> (faults.at)(0) is None && (faults.at)(1) is None
            &&& !(outcome.ending is Succeeded) ==> outcome.ending is Failed && row == entry
            &&& outcome.ending is Succeeded ==> {
                &&& row.retry_count == entry.retry_count + 1
                &&& row.last_retry_at == Some(now)
                &&& row.next_retry_at == next
                &&& row.permanently_failed == entry.permanently_failed
                &&& row.id == entry.id
                &&& row.transaction_id == entry.transaction_id
                &&& row.asset_code == entry.asset_code
                &&& row.error_reason == entry.error_reason
                &&& row.moved_to_dlq_at == entry.moved_to_dlq_at
                &&& outcome.requests.len() == 3
                &&& outcome.requests[0] == Request::<Seq<char>>::Run(
                    Statement::RequeueTransaction { tx_id },
                )
                &&& outcome.requests[1] == Request::<Seq<char>>::Run(
                    Statement::RescheduleEntry {
                        dlq_id: id,
                        retry_count: row.retry_count,
                        last_retry_at: now,
                        next_retry_at: next->0,
                    },
                )
                &&& outcome.requests[2] matches Request::InvalidateCaches { asset_code }
                &&& asset_code == entry.asset_code
            }
            &&& (faults.at)(0) is None && before.dom().contains(tx_id) ==> after[tx_id].status
                is Pending
            &&& (faults.at)(0) is Some ==> after == before
            &&& before.dom().contains(tx_id) ==> after[tx_id].asset_code
                == before[tx_id].asset_code
            &&& after.dom() == before.dom()
            &&& other_tx != tx_id ==> after[other_tx] == before[other_tx]
            &&& outcome.tables.dlq.dom() == tables.dlq.dom()
            &&& other_entry != id ==> outcome.tables.dlq[other_entry] == tables.dlq[other_entry]
        }),
{
    reveal_with_fuel(run, 4);
    let entry = tables.dlq[id];
    let flow = retry_flow(entry, notify, max_retries, base_delay_secs, now);
    let outcome = run(tables, flow, faults, 0);
    assert(outcome.tables.transactions.dom() =~= tables.transactions.dom());
    assert(outcome.tables.dlq.dom() =~= tables.dlq.dom());
}

/// The retry of an entry that has retries left but no instant for the next one. Unless the
/// first statement fails, the transaction is pending and that is all.
pub proof fn law_retrying_without_schedule<E>(
    tables: Tables,
    id: u128,
    notify: bool,
    max_retries: int,
    base_delay_secs: int,
    now: Timestamp,
    other_tx: u128,
    faults: Faults<E>,
)
    requires
        tables.dlq.dom().contains(id),
        tables.dlq[id].retry_count < i32::MAX,
        tables.dlq[id].retry_count < max_retries,
        scheduled(now, tables.dlq[id].retry_count + 1, base_delay_secs) is None,
    ensures
        ({
            let entry = tables.dlq[id];
            let flow = retry_flow(entry, notify, max_retries, base_delay_secs, now);
            let outcome = run(tables, flow, faults, 0);
            let (before, after) = (tables.transactions, outcome.tables.transactions);
            let tx_id = entry.transaction_id;
            &&& outcome.tables.dlq == tables.dlq
            &&& outcome.ending is Unschedulable <==> (faults.at)(0) is None
            &&& (faults.at)(0) matches Some(e) ==> outcome.ending == Ending::Failed(e) && after
                == before
            &&& (faults.at)(0) is None && before.dom().contains(tx_id) ==> after[tx_id].status
                is Pending
            &&& before.dom().contains(tx_id) ==> after[tx_id].asset_code
                == before[tx_id].asset_code
            &&& other_tx != tx_id ==> after[other_tx] == before[other_tx]
            &&& outcome.requests.len() == 1
        }),
{
}

/// The retry, at `now`, of an entry whose retries are used up. If the statement does not
/// fail, the entry has permanently failed and holds `now` as its last retry, whatever it
/// held before. Its count and its schedule stay, and so do all transactions and all other
/// entries.
pub proof fn law_giving_up<E>(
    tables: Tables,
    id: u128,
    notify: bool,
    max_retries: int,
    base_delay_secs: int,
    now: Timestamp,
    other_entry: u128,
    faults: Faults<E>,
)
    requires
        tables.dlq.dom().contains(id),
        tables.dlq[id].id == id,
        tables.dlq[id].retry_count < i32::MAX,
        tables.dlq[id].retry_count >= max_retries,
    ensures
        ({
            let entry = tables.dlq[id];
            let flow = retry_flow(entry, notify, max_retries, base_delay_secs, now);
            let outcome = run(tables, flow, faults, 0);
            let row = outcome.tables.dlq[id];
            &&& outcome.ending is Succeeded <==> (faults.at)(0) is None
            &&& (faults.at)(0) matches Some(e) ==> outcome.ending == Ending::Failed(e) && row
                == entry
            &&& outcome.ending is Succeeded ==> {
                &&& row.permanently_failed
                &&& row.last_retry_at == Some(now)
                &&& row.retry_count == entry.retry_count
                &&& row.next_retry_at == entry.next_retry_at
                &&& row.id == entry.id
                &&& row.transaction_id == entry.transaction_id
                &&& row.asset_code == entry.asset_code
                &&& row.error_reason == entry.error_reason
                &&& row.moved_to_dlq_at == entry.moved_to_dlq_at
                &&& outcome.requests[0] == Request::<Seq<char>>::Run(
                    Statement::FailEntry { dlq_id: id, last_retry_at: now },
                )
            }
            &&& outcome.requests.len() == if notify && outcome.ending is Succeeded {
                2int
            } else {
                1int
            }
            &&& outcome.tables.transactions == tables.transactions
            &&& outcome.tables.dlq.dom() == tables.dlq.dom()
            &&& other_entry != id ==> outcome.tables.dlq[other_entry] == tables.dlq[other_entry]
        }),
{
    reveal_with_fuel(run, 3);
    let entry = tables.dlq[id];
    let flow = retry_flow(entry, notify, max_retries, base_delay_secs, now);
    let outcome = run(tables, flow, faults, 0);
    assert(outcome.tables.dlq.dom() =~= tables.dlq.dom());
}

/// The notice that goes out when an entry is given up, as its receiver sees it: four
/// members, of which the one under each key is the entry's own identifier, that of its
/// transaction, its reason, and its count with the retry that was one too many.
pub proof fn law_exhausted_notice<E>(
    tables: Tables,
    entry: TransactionDlq<Seq<char>>,
    max_retries: int,
    base_delay_secs: int,
    now: Timestamp,
    faults: Faults<E>,
    i: int,
)
    requires
        entry.retry_count < i32::MAX,
        entry.retry_count >= max_retries,
        (faults.at)(0) is None,
    ensures
        ({
            let flow = retry_flow(entry, true, max_retries, base_delay_secs, now);
            let requests = run(tables, flow, faults, 0).requests;
            &&& requests.len() == 2
            &&& requests[1] matches Request::Notify { notice }
            &&& notice.transaction_id == entry.transaction_id
            &&& notice.payload_fields().len() == 4
            &&& 0 <= i < 4 ==> {
                let (key, value) = notice.payload_fields()[i];
                &&& key == "dlq_id"@ ==> value == PayloadValue::<Seq<char>>::Id(entry.id)
                &&& key == "transaction_id"@ ==> value == PayloadValue::<Seq<char>>::Id(
                    entry.transaction_id,
                )
                &&& key == "error_reason"@ ==> value == PayloadValue::Text(entry.error_reason)
                &&& key == "retry_count"@ ==> value == PayloadValue::<Seq<char>>::Number(
                    (entry.retry_count + 1) as i32,
                )
                &&& key == "dlq_id"@ || key == "transaction_id"@ || key == "error_reason"@ || key
                    == "retry_count"@
            }
        }),
{
    reveal_with_fuel(run, 3);
    reveal_strlit("dlq_id");
    reveal_strlit("transaction_id");
    reveal_strlit("error_reason");
    reveal_strlit("retry_count");
    assert("dlq_id"@.len() == 6 && "transaction_id"@.len() == 14);
    assert("error_reason"@.len() == 12 && "retry_count"@.len() == 11);
}

} // verus!
