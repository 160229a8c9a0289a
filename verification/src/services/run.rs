//! What the procedures do to the tables, whichever of their statements fail.
use super::flow::{Flow, Reply, Request, Step};
use super::store::{
    law_statement_keeps_rows_in_place, Statement, Status, Tables, TransactionDlq,
};
use super::transaction_processor::{retry_flow, retry_in_range, retry_time};
use crate::time::Timestamp;
use vstd::prelude::*;

verus! {

/// Which requests of a run fail, by their number in the run and with which error, and the
/// error that reading a missing row gives.
pub struct Faults<E> {
    pub at: spec_fn(nat) -> Option<E>,
    pub missing: E,
}

/// How a run ends.
pub enum Ending<E> {
    Succeeded,
    Failed(E),
    /// The retry after this one would be due at an instant that is not representable.
    Unschedulable,
}

/// The outcome of a run: the tables it leaves, the requests it made, and how it ended.
pub struct Outcome<E> {
    pub tables: Tables,
    pub requests: Seq<Request<Seq<char>>>,
    pub ending: Ending<E>,
}

impl<E> Faults<E> {
    /// The reply to request number `n`. A request that does not fail is answered from the
    /// tables; reading a single row fails where there is none.
    pub open spec fn reply(self, n: nat, tables: Tables, request: Request<Seq<char>>) -> Reply<
        Seq<char>,
        E,
    > {
        match (self.at)(n) {
            Some(e) => Reply::Failed(e),
            None => match request {
                Request::Run(Statement::SelectAssetCode { tx_id }) => {
                    if tables.transactions.dom().contains(tx_id) {
                        Reply::AssetCode(tables.transactions[tx_id].asset_code)
                    } else {
                        Reply::Failed(self.missing)
                    }
                },
                Request::Run(Statement::SelectTransactionId { dlq_id }) => {
                    if tables.dlq.dom().contains(dlq_id) {
                        Reply::TransactionId(tables.dlq[dlq_id].transaction_id)
                    } else {
                        Reply::Failed(self.missing)
                    }
                },
                _ => Reply::Done,
            },
        }
    }
}

/// The tables after a request that was answered with `reply`. One that failed changed
/// nothing.
pub open spec fn tables_after<E>(
    tables: Tables,
    request: Request<Seq<char>>,
    reply: Reply<Seq<char>, E>,
) -> Tables {
    match (request, reply) {
        (_, Reply::Failed(_)) => tables,
        (Request::Run(statement), _) => tables.after(statement),
        _ => tables,
    }
}

/// The most requests that a flow has still to make.
pub open spec fn requests_left(flow: Flow<Seq<char>>) -> nat {
    match flow {
        Flow::FetchTransaction { .. } => 5,
        Flow::FetchEntryAsset { .. } => 4,
        Flow::FetchAsset { .. } => 3,
        Flow::Requeue { .. } => 3,
        Flow::Retry { .. } => 3,
        Flow::Complete { .. } => 2,
        Flow::Delete { .. } => 2,
        Flow::Reschedule { .. } => 2,
        Flow::GiveUp { .. } => 2,
        Flow::Notify { .. } => 1,
        Flow::Invalidate { .. } => 1,
    }
}

/// Runs a flow to its end, its next request being number `n`.
pub open spec fn run<E>(tables: Tables, flow: Flow<Seq<char>>, faults: Faults<E>, n: nat) -> Outcome<
    E,
>
    decreases requests_left(flow),
{
    let request = flow.pending();
    let reply = faults.reply(n, tables, request);
    let after = tables_after(tables, request, reply);
    match flow.next(reply) {
        Step::Finished(Ok(())) => Outcome {
            tables: after,
            requests: seq![request],
            ending: Ending::Succeeded,
        },
        Step::Finished(Err(e)) => Outcome {
            tables: after,
            requests: seq![request],
            ending: Ending::Failed(e),
        },
        Step::Unschedulable => Outcome {
            tables: after,
            requests: seq![request],
            ending: Ending::Unschedulable,
        },
        Step::Continue(rest) => {
            let outcome = run(after, rest, faults, n + 1);
            Outcome { requests: seq![request] + outcome.requests, ..outcome }
        },
    }
}

/// Whatever fails in a run, every DLQ row still stands under its own identifier.
pub proof fn law_run_keeps_rows_in_place<E>(
    tables: Tables,
    flow: Flow<Seq<char>>,
    faults: Faults<E>,
    n: nat,
)
    requires
        tables.wf(),
    ensures
        run(tables, flow, faults, n).tables.wf(),
    decreases requests_left(flow),
{
    let request = flow.pending();
    let reply = faults.reply(n, tables, request);
    let after = tables_after(tables, request, reply);
    match request {
        Request::Run(statement) => law_statement_keeps_rows_in_place(tables, statement),
        _ => {},
    }
    match flow.next(reply) {
        Step::Continue(rest) => law_run_keeps_rows_in_place(after, rest, faults, n + 1),
        _ => {},
    }
}

/// A failure ends a procedure: it is the failure of the last request made, which was a
/// statement, and the result is its error. A procedure succeeds only if none of its
/// statements failed.
pub proof fn law_failure_ends_procedure<E>(
    tables: Tables,
    flow: Flow<Seq<char>>,
    faults: Faults<E>,
    n: nat,
)
    ensures
        ({
            let outcome = run(tables, flow, faults, n);
            let last = (outcome.requests.len() - 1) as nat;
            &&& 1 <= outcome.requests.len() <= requests_left(flow)
            &&& forall|k: nat|
                k < last ==> (#[trigger] (faults.at)((n + k) as nat)) is None
            &&& match outcome.ending {
                Ending::Failed(e) => {
                    &&& outcome.requests.last() is Run
                    &&& (faults.at)((n + last) as nat) == Some(e) || ((faults.at)(
                        (n + last) as nat,
                    ) is None && e == faults.missing)
                },
                Ending::Succeeded => outcome.requests.last() is Run ==> (faults.at)(
                    (n + last) as nat,
                ) is None,
                Ending::Unschedulable => {
                    &&& outcome.requests.last() is Run
                    &&& (faults.at)((n + last) as nat) is None
                },
            }
        }),
    decreases requests_left(flow),
{
    let request = flow.pending();
    let reply = faults.reply(n, tables, request);
    let after = tables_after(tables, request, reply);
    match flow.next(reply) {
        Step::Finished(_) => {},
        Step::Unschedulable => {},
        Step::Continue(rest) => {
            law_failure_ends_procedure(after, rest, faults, n + 1);
            let outcome = run(tables, flow, faults, n);
            let tail = run(after, rest, faults, n + 1);
            let last = (outcome.requests.len() - 1) as nat;
            assert(outcome.requests.last() == tail.requests.last());
            assert((n + last) as nat == (n + 1 + (tail.requests.len() - 1) as nat) as nat);
            assert forall|k: nat| k < last implies (#[trigger] (faults.at)((n + k) as nat)) is None by {
                if k > 0 {
                    let j = (k - 1) as nat;
                    assert((faults.at)((n + 1 + j) as nat) is None);
                    assert((n + 1 + j) as nat == (n + k) as nat);
                }
            }
        },
    }
}

/// Completing a transaction succeeds exactly if the transaction exists and neither
/// statement fails. It then has set the status to completed and nothing else, and after
/// that dropped what is cached for the asset code that was read before the update. Where
/// it does not succeed, it has changed nothing and dropped nothing.
pub proof fn law_process_completes<E>(tables: Tables, tx_id: u128, faults: Faults<E>)
    ensures
        ({
            let outcome = run(tables, Flow::FetchAsset { tx_id }, faults, 0);
            if tables.transactions.dom().contains(tx_id) && (faults.at)(0) is None && (faults.at)(
                1,
            ) is None {
                outcome == (Outcome {
                    tables: tables.with_status(tx_id, Status::Completed),
                    requests: seq![
                        Request::Run(Statement::SelectAssetCode { tx_id }),
                        Request::Run(Statement::CompleteTransaction { tx_id }),
                        Request::InvalidateCaches {
                            asset_code: tables.transactions[tx_id].asset_code,
                        },
                    ],
                    ending: Ending::<E>::Succeeded,
                })
            } else {
                &&& outcome.ending is Failed
                &&& outcome.tables == tables
                &&& forall|k: int| 0 <= k < outcome.requests.len() ==> outcome.requests[k] is Run
            }
        }),
{
    reveal_with_fuel(run, 4);
    let outcome = run(tables, Flow::FetchAsset { tx_id }, faults, 0);
    if outcome.ending is Succeeded {
        assert(outcome.requests =~= seq![
            Request::Run(Statement::SelectAssetCode { tx_id }),
            Request::Run(Statement::CompleteTransaction { tx_id }),
            Request::InvalidateCaches { asset_code: tables.transactions[tx_id].asset_code },
        ]);
    }
}

/// Requeueing an entry succeeds exactly if the entry and its transaction exist and no
/// statement fails. It then has set the transaction's status to pending and removed the
/// entry, and after that dropped what is cached for the asset.
pub proof fn law_requeue_restores<E>(tables: Tables, dlq_id: u128, faults: Faults<E>)
    ensures
        ({
            let tx_id = tables.dlq[dlq_id].transaction_id;
            let outcome = run(tables, Flow::FetchTransaction { dlq_id }, faults, 0);
            if tables.dlq.dom().contains(dlq_id) && tables.transactions.dom().contains(tx_id) && (
            faults.at)(0) is None && (faults.at)(1) is None && (faults.at)(2) is None && (faults.at)(
                3,
            ) is None {
                outcome == (Outcome {
                    tables: Tables {
                        dlq: tables.dlq.remove(dlq_id),
                        ..tables.with_status(tx_id, Status::Pending)
                    },
                    requests: seq![
                        Request::Run(Statement::SelectTransactionId { dlq_id }),
                        Request::Run(Statement::SelectAssetCode { tx_id }),
                        Request::Run(Statement::RequeueTransaction { tx_id }),
                        Request::Run(Statement::DeleteEntry { dlq_id }),
                        Request::InvalidateCaches {
                            asset_code: tables.transactions[tx_id].asset_code,
                        },
                    ],
                    ending: Ending::<E>::Succeeded,
                })
            } else {
                &&& outcome.ending is Failed
                &&& outcome.tables.dlq == tables.dlq
                &&& forall|k: int| 0 <= k < outcome.requests.len() ==> outcome.requests[k] is Run
            }
        }),
{
    reveal_with_fuel(run, 6);
    let tx_id = tables.dlq[dlq_id].transaction_id;
    let outcome = run(tables, Flow::FetchTransaction { dlq_id }, faults, 0);
    if outcome.ending is Succeeded {
        assert(outcome.requests =~= seq![
            Request::Run(Statement::SelectTransactionId { dlq_id }),
            Request::Run(Statement::SelectAssetCode { tx_id }),
            Request::Run(Statement::RequeueTransaction { tx_id }),
            Request::Run(Statement::DeleteEntry { dlq_id }),
            Request::InvalidateCaches { asset_code: tables.transactions[tx_id].asset_code },
        ]);
    }
}

/// Whatever fails while an entry is requeued: the entry is removed only once its
/// transaction is pending, and no other entry and no other transaction changes.
pub proof fn law_requeue_loses_nothing<E>(tables: Tables, dlq_id: u128, faults: Faults<E>)
    ensures
        ({
            let after = run(tables, Flow::FetchTransaction { dlq_id }, faults, 0).tables;
            let tx_id = tables.dlq[dlq_id].transaction_id;
            &&& after.dlq == tables.dlq || after.dlq == tables.dlq.remove(dlq_id)
            &&& after.transactions == tables.transactions || after.transactions
                == tables.with_status(tx_id, Status::Pending).transactions
            &&& tables.dlq.dom().contains(dlq_id) && !after.dlq.dom().contains(dlq_id) ==> {
                &&& after.transactions.dom().contains(tx_id)
                &&& after.transactions[tx_id].status == Status::Pending
            }
        }),
{
    reveal_with_fuel(run, 6);
}

/// The entries that can be retried at `now`: the count of retries can still be raised,
/// and the instant of the retry after this one, if there is to be one, is representable.
pub open spec fn retry_defined(
    entry: TransactionDlq<Seq<char>>,
    max_retries: int,
    base_delay_secs: int,
    now: Timestamp,
) -> bool {
    &&& entry.retry_count < i32::MAX
    &&& entry.retry_count + 1 <= max_retries ==> retry_in_range(
        now,
        entry.retry_count + 1,
        base_delay_secs,
    )
}

/// The entry as a retry at `now` that meets no failure leaves it.
pub open spec fn retried(
    entry: TransactionDlq<Seq<char>>,
    max_retries: int,
    base_delay_secs: int,
    now: Timestamp,
) -> TransactionDlq<Seq<char>> {
    if entry.retry_count + 1 > max_retries {
        TransactionDlq { permanently_failed: true, last_retry_at: Some(now), ..entry }
    } else {
        TransactionDlq {
            retry_count: (entry.retry_count + 1) as i32,
            last_retry_at: Some(now),
            next_retry_at: Some(retry_time(now, entry.retry_count + 1, base_delay_secs)),
            ..entry
        }
    }
}

/// The retry of an entry that has been retried `max_retries` times succeeds exactly if
/// the statement that marks it does not fail. The entry is then permanently failed and
/// no transaction has changed. A notice goes out exactly if a dispatcher is attached, and
/// a notice that cannot be sent does not make the retry fail.
pub proof fn law_retry_gives_up<E>(
    tables: Tables,
    entry: TransactionDlq<Seq<char>>,
    notify: bool,
    max_retries: int,
    base_delay_secs: int,
    now: Timestamp,
    faults: Faults<E>,
)
    requires
        tables.dlq.dom().contains(entry.id),
        tables.dlq[entry.id] == entry,
        entry.retry_count < i32::MAX,
        entry.retry_count + 1 > max_retries,
    ensures
        ({
            let flow = retry_flow(entry, notify, max_retries, base_delay_secs, now);
            let outcome = run(tables, flow, faults, 0);
            &&& outcome.ending is Succeeded <==> (faults.at)(0) is None
            &&& outcome.tables == if outcome.ending is Succeeded {
                tables.with_entry(entry.id, retried(entry, max_retries, base_delay_secs, now))
            } else {
                tables
            }
            &&& outcome.requests.len() == if notify && outcome.ending is Succeeded {
                2int
            } else {
                1int
            }
            &&& outcome.requests.len() == 2 ==> {
                &&& outcome.requests[1] matches Request::Notify { notice }
                &&& notice.dlq_id == entry.id
                &&& notice.transaction_id == entry.transaction_id
                &&& notice.error_reason == entry.error_reason
                &&& notice.retry_count == entry.retry_count + 1
            }
        }),
{
    reveal_with_fuel(run, 3);
}

/// The retry of an entry that has retries left succeeds exactly if neither statement
/// fails. The transaction is then pending, the retry is recorded with the instant of the
/// next one, and what is cached for the asset has been dropped. Where it fails, the entry
/// is as before, so it is still due.
pub proof fn law_retry_reschedules<E>(
    tables: Tables,
    entry: TransactionDlq<Seq<char>>,
    notify: bool,
    max_retries: int,
    base_delay_secs: int,
    now: Timestamp,
    faults: Faults<E>,
)
    requires
        tables.dlq.dom().contains(entry.id),
        tables.dlq[entry.id] == entry,
        entry.retry_count + 1 <= max_retries,
        retry_defined(entry, max_retries, base_delay_secs, now),
    ensures
        ({
            let flow = retry_flow(entry, notify, max_retries, base_delay_secs, now);
            let outcome = run(tables, flow, faults, 0);
            let pending = tables.with_status(entry.transaction_id, Status::Pending);
            let row = retried(entry, max_retries, base_delay_secs, now);
            if (faults.at)(0) is None && (faults.at)(1) is None {
                &&& outcome.ending is Succeeded
                &&& outcome.tables == pending.with_entry(entry.id, row)
                &&& outcome.requests.len() == 3
                &&& outcome.requests[2] == (Request::InvalidateCaches {
                    asset_code: entry.asset_code,
                })
            } else {
                &&& outcome.ending is Failed
                &&& outcome.tables == if (faults.at)(0) is None {
                    pending
                } else {
                    tables
                }
                &&& forall|k: int| 0 <= k < outcome.requests.len() ==> outcome.requests[k] is Run
            }
        }),
{
    reveal_with_fuel(run, 4);
}

/// Where an entry has retries left but the instant of the next one is not representable,
/// nothing is recorded for it: the transaction is pending, the entry is as before, and the
/// procedure cannot go on. Only the update of the transaction can fail before that.
pub proof fn law_unschedulable_retry<E>(
    tables: Tables,
    entry: TransactionDlq<Seq<char>>,
    notify: bool,
    max_retries: int,
    base_delay_secs: int,
    now: Timestamp,
    faults: Faults<E>,
)
    requires
        entry.retry_count < i32::MAX,
        !retry_defined(entry, max_retries, base_delay_secs, now),
    ensures
        ({
            let flow = retry_flow(entry, notify, max_retries, base_delay_secs, now);
            run(tables, flow, faults, 0) == match (faults.at)(0) {
                None => Outcome {
                    tables: tables.with_status(entry.transaction_id, Status::Pending),
                    requests: seq![
                        Request::Run(
                            Statement::RequeueTransaction { tx_id: entry.transaction_id },
                        ),
                    ],
                    ending: Ending::<E>::Unschedulable,
                },
                Some(e) => Outcome {
                    tables,
                    requests: seq![
                        Request::Run(
                            Statement::RequeueTransaction { tx_id: entry.transaction_id },
                        ),
                    ],
                    ending: Ending::Failed(e),
                },
            }
        }),
{
}

} // verus!
