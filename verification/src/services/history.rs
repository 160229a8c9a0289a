//! What the processor does to the queue over time: reading the due entries and retrying
//! them, cycle after cycle, whatever fails and whatever else it does in between.
use super::cycle::{cycled, law_cycle_retries_each, tables_after_entries, untroubled, CycleSetting};
use super::dlq_queue::are_rows;
use super::flow::Flow;
use super::run::{retried, retry_defined, run, Faults};
use super::store::{Statement, Tables, TransactionDlq, DUE_LIMIT};
use super::transaction_processor::retry_flow;
use crate::time::Timestamp;
use vstd::prelude::*;

verus! {

/// A retry cycle: when it reads the due entries, what the statement that
/// `process_dlq_retries` gives for that returns, what the cycle meets, and how many entries
/// it takes up, which is all of them unless it is cut short.
pub struct RetryCycle<E> {
    pub now: Timestamp,
    pub read: Result<Seq<TransactionDlq<Seq<char>>>, E>,
    pub setting: CycleSetting<E>,
    pub taken: nat,
}

impl<E> RetryCycle<E> {
    /// Whether the cycle can have run on these tables: it got what the statement that
    /// reads the due entries returns, or failed to get it and took up nothing. An entry
    /// whose count of retries cannot be raised is not taken up.
    pub open spec fn possible(self, tables: Tables) -> bool {
        match self.read {
            Ok(entries) => {
                &&& (Statement::SelectDue { now: self.now }).returns_rows(tables, entries)
                &&& self.taken <= entries.len()
                &&& forall|k: int|
                    0 <= k < self.taken ==> (#[trigger] entries[k]).retry_count < i32::MAX
            },
            Err(_) => self.taken == 0,
        }
    }

    /// The tables that the cycle leaves.
    pub open spec fn after(self, tables: Tables) -> Tables {
        let read = tables.after(Statement::SelectDue { now: self.now });
        match self.read {
            Ok(entries) => tables_after_entries(read, entries, self.setting, self.taken),
            Err(_) => tables,
        }
    }
}

/// A cycle that reads the due entries and takes up all of them: an entry that was not due
/// is untouched. One that was due is taken up, and then retried or given up if its own
/// statements go through, and as before if not; or `DUE_LIMIT` others are taken up, none
/// of them moved to the queue later than this one.
pub proof fn law_cycle_takes_up_what_is_due<E>(
    tables: Tables,
    entries: Seq<TransactionDlq<Seq<char>>>,
    cycle: RetryCycle<E>,
    id: u128,
)
    requires
        tables.wf(),
        cycle.possible(tables),
        cycle.read == Ok::<Seq<TransactionDlq<Seq<char>>>, E>(entries),
        cycle.taken == entries.len(),
        forall|k: int|
            0 <= k < entries.len() ==> retry_defined(
                #[trigger] entries[k],
                cycle.setting.max_retries,
                cycle.setting.base_delay_secs,
                (cycle.setting.clock)(k as nat),
            ),
        tables.dlq.dom().contains(id),
    ensures
        ({
            let before = tables.dlq[id];
            let after = cycle.after(tables).dlq[id];
            if !before.due(cycle.now) {
                after == before
            } else if entries.contains(before) {
                exists|k: int|
                    0 <= k < entries.len() && #[trigger] entries[k] == before && {
                        &&& after == before || after == cycled(entries, cycle.setting, k)
                        &&& untroubled(cycle.setting, k) ==> after == cycled(
                            entries,
                            cycle.setting,
                            k,
                        )
                    }
            } else {
                &&& after == before
                &&& entries.len() == DUE_LIMIT
                &&& forall|k: int|
                    0 <= k < entries.len() ==> (#[trigger] entries[k]).moved_to_dlq_at.not_after(
                        before.moved_to_dlq_at,
                    )
            }
        }),
{
    let before = tables.dlq[id];
    law_cycle_retries_each(tables, entries, cycle.setting, entries.len());
    if before.due(cycle.now) && entries.contains(before) {
        let k = entries.index_of(before);
        assert(entries[k].id == id);
    } else {
        assert forall|k: int| 0 <= k < entries.len() implies (#[trigger] entries[k]).id != id by {
            if entries[k].id == id {
                assert(entries[k] == before);
            }
        }
    }
}

/// The retry of an entry touches only its own row. It leaves that as before, or as a retry
/// without failure leaves it.
proof fn lemma_retry_touches_its_row<E>(
    tables: Tables,
    entry: TransactionDlq<Seq<char>>,
    setting: CycleSetting<E>,
    k: nat,
)
    requires
        tables.dlq.dom().contains(entry.id),
        tables.dlq[entry.id] == entry,
        entry.retry_count < i32::MAX,
    ensures
        ({
            let now = (setting.clock)(k);
            let flow = retry_flow(
                entry,
                setting.notify,
                setting.max_retries,
                setting.base_delay_secs,
                now,
            );
            let after = run(tables, flow, (setting.faults)(k), 0).tables;
            let row = retried(entry, setting.max_retries, setting.base_delay_secs, now);
            after.dlq == tables.dlq || after.dlq == tables.dlq.insert(entry.id, row)
        }),
{
    reveal_with_fuel(run, 4);
}

/// After the first `n` entries of a cycle: a row that was taken up is as before or as its
/// retry leaves it, and the others are as before.
proof fn lemma_cycle_touches_taken_rows<E>(
    tables: Tables,
    entries: Seq<TransactionDlq<Seq<char>>>,
    setting: CycleSetting<E>,
    n: nat,
)
    requires
        are_rows(tables, entries),
        n <= entries.len(),
        forall|k: int| 0 <= k < n ==> (#[trigger] entries[k]).retry_count < i32::MAX,
    ensures
        ({
            let after = tables_after_entries(tables, entries, setting, n);
            &&& after.dlq.dom() == tables.dlq.dom()
            &&& forall|k: int|
                0 <= k < n ==> {
                    let row = after.dlq[(#[trigger] entries[k]).id];
                    row == entries[k] || row == cycled(entries, setting, k)
                }
            &&& forall|id: u128|
                (forall|k: int| 0 <= k < n ==> (#[trigger] entries[k]).id != id)
                    ==> #[trigger] after.dlq[id] == tables.dlq[id]
        }),
    decreases n,
{
    if n > 0 {
        let k = (n - 1) as nat;
        lemma_cycle_touches_taken_rows(tables, entries, setting, k);
        let before = tables_after_entries(tables, entries, setting, k);
        let after = tables_after_entries(tables, entries, setting, n);
        let entry = entries[k as int];
        assert(before.dlq[entry.id] == tables.dlq[entry.id]);
        lemma_retry_touches_its_row(before, entry, setting, k);
        assert(after.dlq.dom() =~= tables.dlq.dom());
        assert forall|id: u128|
            (forall|m: int| 0 <= m < n ==> (#[trigger] entries[m]).id != id) implies (
        #[trigger] after.dlq[id]) == tables.dlq[id] by {
            assert(entries[k as int].id != id);
            assert(before.dlq[id] == tables.dlq[id]);
        }
    }
}

/// What every activity of the processor keeps, of a row that is there before and after:
/// once permanently failed it is never touched again, what it is about stays, and its
/// count of retries goes up by at most one at a time, and only up to `max_retries`.
pub open spec fn row_kept(
    before: TransactionDlq<Seq<char>>,
    after: TransactionDlq<Seq<char>>,
    max_retries: int,
) -> bool {
    &&& before.permanently_failed ==> after == before
    &&& before.id == after.id
    &&& before.transaction_id == after.transaction_id
    &&& before.asset_code == after.asset_code
    &&& before.error_reason == after.error_reason
    &&& before.moved_to_dlq_at == after.moved_to_dlq_at
    &&& after.retry_count == before.retry_count || (after.retry_count == before.retry_count + 1
        && after.retry_count <= max_retries)
}

/// Whatever fails in a cycle, and wherever it is cut short: no row comes or goes, a
/// permanently failed row is untouched, and so is one that was not due. The count of
/// retries of a row never falls, and rises by one at most and only up to `max_retries`.
pub proof fn law_cycle_keeps_bounds<E>(tables: Tables, cycle: RetryCycle<E>, id: u128)
    requires
        cycle.possible(tables),
        tables.dlq.dom().contains(id),
    ensures
        ({
            let before = tables.dlq[id];
            let after = cycle.after(tables).dlq[id];
            &&& cycle.after(tables).dlq.dom() == tables.dlq.dom()
            &&& row_kept(before, after, cycle.setting.max_retries)
            &&& !before.due(cycle.now) ==> after == before
            &&& before.retry_count <= after.retry_count
            &&& after.retry_count <= before.retry_count || after.retry_count
                <= cycle.setting.max_retries
        }),
{
    match cycle.read {
        Ok(entries) => {
            lemma_cycle_touches_taken_rows(tables, entries, cycle.setting, cycle.taken);
            if exists|k: int| 0 <= k < cycle.taken && (#[trigger] entries[k]).id == id {
                let k = choose|k: int| 0 <= k < cycle.taken && (#[trigger] entries[k]).id == id;
                assert(entries[k] == tables.dlq[id]);
                assert(entries[k].due(cycle.now));
            } else {
                assert(cycle.after(tables).dlq[id] == tables.dlq[id]);
            }
        },
        Err(_) => {},
    }
}

/// Something that the processor does: a retry cycle, the completion of a transaction, or
/// the requeueing of an entry.
pub enum Activity<E> {
    Retries(RetryCycle<E>),
    Process { tx_id: u128, faults: Faults<E> },
    Requeue { dlq_id: u128, faults: Faults<E> },
}

impl<E> Activity<E> {
    /// Whether it can have been done on these tables, with no limit on retries above
    /// `max_retries`.
    pub open spec fn possible(self, tables: Tables, max_retries: int) -> bool {
        match self {
            Activity::Retries(cycle) => cycle.possible(tables) && cycle.setting.max_retries
                <= max_retries,
            _ => true,
        }
    }

    /// The tables that it leaves.
    pub open spec fn after(self, tables: Tables) -> Tables {
        match self {
            Activity::Retries(cycle) => cycle.after(tables),
            Activity::Process { tx_id, faults } => run(
                tables,
                Flow::FetchAsset { tx_id },
                faults,
                0,
            ).tables,
            Activity::Requeue { dlq_id, faults } => run(
                tables,
                Flow::FetchTransaction { dlq_id },
                faults,
                0,
            ).tables,
        }
    }
}

/// The tables after the first `n` activities.
pub open spec fn tables_after_activities<E>(
    tables: Tables,
    activities: Seq<Activity<E>>,
    n: nat,
) -> Tables
    decreases n,
{
    if n == 0 {
        tables
    } else {
        activities[n - 1].after(tables_after_activities(tables, activities, (n - 1) as nat))
    }
}

/// Each activity can have been done on the tables that those before it left.
pub open spec fn is_history<E>(
    tables: Tables,
    activities: Seq<Activity<E>>,
    max_retries: int,
) -> bool {
    forall|n: int|
        0 <= n < activities.len() ==> (#[trigger] activities[n]).possible(
            tables_after_activities(tables, activities, n as nat),
            max_retries,
        )
}

/// No activity brings a row into the queue, and a row that it leaves there is kept as
/// `row_kept` says. Only the requeueing of an entry takes a row away, and only that entry.
pub proof fn law_activity_keeps_rows<E>(
    tables: Tables,
    activity: Activity<E>,
    max_retries: int,
    id: u128,
)
    requires
        activity.possible(tables, max_retries),
    ensures
        ({
            let after = activity.after(tables);
            &&& after.dlq.dom().contains(id) ==> tables.dlq.dom().contains(id) && row_kept(
                tables.dlq[id],
                after.dlq[id],
                max_retries,
            )
            &&& tables.dlq.dom().contains(id) && !after.dlq.dom().contains(id) ==> (activity matches
                Activity::Requeue { dlq_id, .. } && dlq_id == id)
        }),
{
    match activity {
        Activity::Retries(cycle) => {
            if tables.dlq.dom().contains(id) {
                law_cycle_keeps_bounds(tables, cycle, id);
            } else {
                match cycle.read {
                    Ok(entries) => lemma_cycle_touches_taken_rows(
                        tables,
                        entries,
                        cycle.setting,
                        cycle.taken,
                    ),
                    Err(_) => {},
                }
            }
        },
        Activity::Process { tx_id, faults } => {
            reveal_with_fuel(run, 4);
        },
        Activity::Requeue { dlq_id, faults } => {
            reveal_with_fuel(run, 6);
        },
    }
}

/// Over any number of cycles and other activities, whatever fails: a row that is still in
/// the queue was there all along. Once it has permanently failed it is never touched
/// again. Its count of retries never falls, and never rises beyond `max_retries`.
pub proof fn law_history_keeps_bounds<E>(
    tables: Tables,
    activities: Seq<Activity<E>>,
    max_retries: int,
    m: nat,
    n: nat,
    id: u128,
)
    requires
        is_history(tables, activities, max_retries),
        m <= n <= activities.len(),
        tables_after_activities(tables, activities, n).dlq.dom().contains(id),
    ensures
        ({
            let earlier = tables_after_activities(tables, activities, m);
            let later = tables_after_activities(tables, activities, n);
            let (before, after) = (earlier.dlq[id], later.dlq[id]);
            &&& earlier.dlq.dom().contains(id)
            &&& before.permanently_failed ==> after == before
            &&& before.retry_count <= after.retry_count
            &&& after.retry_count <= before.retry_count || after.retry_count <= max_retries
            &&& after.retry_count - before.retry_count <= n - m
            &&& before.transaction_id == after.transaction_id
        }),
    decreases n,
{
    if m < n {
        let k = (n - 1) as nat;
        law_activity_keeps_rows(
            tables_after_activities(tables, activities, k),
            activities[k as int],
            max_retries,
            id,
        );
        law_history_keeps_bounds(tables, activities, max_retries, m, k, id);
    }
}

} // verus!
