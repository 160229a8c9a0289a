//! The procedures of the transaction processor, run against tables held in memory.
use std::collections::BTreeMap;
use synapse_core::services::dlq_queue::select_due;
use synapse_core::services::dlq_settings::{dlq_base_delay_secs, dlq_max_retries};
use synapse_core::services::flow::{
    DlqExhausted, Flow, PayloadValue, Reply, Request, Step, DLQ_EXHAUSTED_EVENT,
};
use synapse_core::services::store::{Param, Statement, TransactionDlq, DUE_LIMIT};
use synapse_core::services::transaction_processor::DlqCycle;
use synapse_core::services::TransactionProcessor;
use synapse_core::time::Timestamp;

type Entry = TransactionDlq<String>;
type Processor = TransactionProcessor<(), ()>;

struct Transaction {
    stellar_account: String,
    amount: String,
    asset_code: String,
    status: String,
}

/// Two tables, a cache and a webhook queue.
#[derive(Default)]
struct Store {
    transactions: BTreeMap<u128, Transaction>,
    dlq: BTreeMap<u128, Entry>,
    invalidated: Vec<String>,
    notices: Vec<DlqExhausted<String>>,
    statements: Vec<Statement>,
    /// Statements that fail, by their number.
    failing: Vec<usize>,
    webhooks_fail: bool,
}

fn at(secs: i64) -> Timestamp {
    Timestamp { secs, nanos: 0 }
}

fn copy(e: &Entry) -> Entry {
    TransactionDlq {
        id: e.id,
        transaction_id: e.transaction_id,
        asset_code: e.asset_code.clone(),
        error_reason: e.error_reason.clone(),
        retry_count: e.retry_count,
        permanently_failed: e.permanently_failed,
        moved_to_dlq_at: e.moved_to_dlq_at,
        last_retry_at: e.last_retry_at,
        next_retry_at: e.next_retry_at,
    }
}

impl Store {
    fn insert_transaction(&mut self, amount: &str, status: &str) -> u128 {
        let id = uuid::Uuid::new_v4().as_u128();
        let row = Transaction {
            stellar_account: "GABCD1234TEST".to_string(),
            amount: amount.to_string(),
            asset_code: "USD".to_string(),
            status: status.to_string(),
        };
        self.transactions.insert(id, row);
        id
    }

    fn insert_entry(&mut self, tx_id: u128, error_reason: &str, retry_count: i32) -> u128 {
        let id = uuid::Uuid::new_v4().as_u128();
        let entry = TransactionDlq {
            id,
            transaction_id: tx_id,
            asset_code: "USD".to_string(),
            error_reason: error_reason.to_string(),
            retry_count,
            permanently_failed: false,
            moved_to_dlq_at: at(0),
            last_retry_at: None,
            next_retry_at: None,
        };
        self.dlq.insert(id, entry);
        id
    }

    fn execute(&mut self, statement: Statement) -> Reply<String, String> {
        let number = self.statements.len();
        self.statements.push(statement);
        if self.failing.contains(&number) {
            return Reply::Failed("connection lost".to_string());
        }
        match statement {
            Statement::SelectAssetCode { tx_id } => match self.transactions.get(&tx_id) {
                Some(row) => Reply::AssetCode(row.asset_code.clone()),
                None => Reply::Failed("no rows returned".to_string()),
            },
            Statement::SelectTransactionId { dlq_id } => match self.dlq.get(&dlq_id) {
                Some(row) => Reply::TransactionId(row.transaction_id),
                None => Reply::Failed("no rows returned".to_string()),
            },
            Statement::SelectDue { .. } => unreachable!("read through due()"),
            Statement::CompleteTransaction { tx_id } => self.set_status(tx_id, "completed"),
            Statement::RequeueTransaction { tx_id } => self.set_status(tx_id, "pending"),
            Statement::DeleteEntry { dlq_id } => {
                self.dlq.remove(&dlq_id);
                Reply::Done
            }
            Statement::FailEntry { dlq_id, last_retry_at } => {
                if let Some(row) = self.dlq.get_mut(&dlq_id) {
                    row.permanently_failed = true;
                    row.last_retry_at = Some(last_retry_at);
                }
                Reply::Done
            }
            Statement::RescheduleEntry { dlq_id, retry_count, last_retry_at, next_retry_at } => {
                if let Some(row) = self.dlq.get_mut(&dlq_id) {
                    row.retry_count = retry_count;
                    row.last_retry_at = Some(last_retry_at);
                    row.next_retry_at = Some(next_retry_at);
                }
                Reply::Done
            }
        }
    }

    fn set_status(&mut self, tx_id: u128, status: &str) -> Reply<String, String> {
        if let Some(row) = self.transactions.get_mut(&tx_id) {
            row.status = status.to_string();
        }
        Reply::Done
    }

    fn due(&mut self, statement: Statement) -> Result<Vec<Entry>, String> {
        let number = self.statements.len();
        self.statements.push(statement);
        if self.failing.contains(&number) {
            return Err("connection lost".to_string());
        }
        let now = match statement {
            Statement::SelectDue { now } => now,
            other => panic!("unexpected statement {:?}", other),
        };
        let rows: Vec<Entry> = self.dlq.values().map(copy).collect();
        Ok(select_due(&rows, &now).into_iter().map(|i| copy(&rows[i])).collect())
    }

    fn run(&mut self, mut flow: Flow<String>) -> Result<(), String> {
        loop {
            let reply = match flow.request() {
                Request::Run(statement) => self.execute(statement),
                Request::InvalidateCaches { asset_code } => {
                    self.invalidated.push(asset_code);
                    Reply::Done
                }
                Request::Notify { notice } => {
                    self.notices.push(notice);
                    if self.webhooks_fail {
                        Reply::Failed("queue full".to_string())
                    } else {
                        Reply::Done
                    }
                }
            };
            match flow.step(reply) {
                Step::Continue(next) => flow = next,
                Step::Finished(result) => return result,
                Step::Unschedulable => return Err("unschedulable".to_string()),
            }
        }
    }

    fn cycle(&mut self, processor: &Processor, now: Timestamp) -> Result<Vec<String>, String> {
        let due = self.due(processor.process_dlq_retries(now));
        let mut cycle = DlqCycle::begin(due, dlq_max_retries(None), dlq_base_delay_secs(None))?;
        let mut errors = Vec::new();
        loop {
            match cycle.next(processor, now) {
                Some(flow) => {
                    if let Err(e) = self.run(flow) {
                        errors.push(e);
                    }
                }
                None => return Ok(errors),
            }
        }
    }
}

#[test]
fn test_dlq_workflow() {
    let mut store = Store::default();
    let tx_id = store.insert_transaction("100.50", "pending");

    let processor = Processor::new(());
    let result = store.run(processor.process_transaction(tx_id));
    assert!(result.is_ok(), "Transaction processing should succeed");

    let tx = &store.transactions[&tx_id];
    assert_eq!(tx.status, "completed");
    assert_eq!((tx.stellar_account.as_str(), tx.amount.as_str()), ("GABCD1234TEST", "100.50"));
    assert_eq!(store.invalidated, vec!["USD".to_string()]);
}

#[test]
fn test_requeue_dlq() {
    let mut store = Store::default();
    let tx_id = store.insert_transaction("100.50", "dlq");
    let dlq_id = store.insert_entry(tx_id, "Test error", 3);

    let processor = Processor::new(());
    let result = store.run(processor.requeue_dlq(dlq_id));
    assert!(result.is_ok(), "Requeue should succeed");

    assert_eq!(store.transactions[&tx_id].status, "pending");

    let dlq_count = store.dlq.keys().filter(|id| **id == dlq_id).count();
    assert_eq!(dlq_count, 0, "DLQ entry should be removed");
    assert_eq!(store.invalidated, vec!["USD".to_string()]);
}

#[test]
fn test_dlq_auto_retry_progression() {
    let mut store = Store::default();
    let tx_id = store.insert_transaction("50.00", "dlq");
    let dlq_id = store.insert_entry(tx_id, "transient error", 0);

    let processor = Processor::new(());

    // First retry cycle
    assert_eq!(store.cycle(&processor, at(1_000)), Ok(vec![]));

    let row = &store.dlq[&dlq_id];
    assert_eq!(row.retry_count, 1, "retry_count should be 1");
    assert!(!row.permanently_failed, "should not be permanently_failed");
    assert!(row.next_retry_at.is_some(), "next_retry_at should be set");
    assert_eq!(row.last_retry_at, Some(at(1_000)));
    assert_eq!(row.next_retry_at, Some(at(1_120)));

    // Verify transaction was requeued as pending
    assert_eq!(store.transactions[&tx_id].status, "pending");
    assert_eq!(store.invalidated, vec!["USD".to_string()]);
}

#[test]
fn test_dlq_permanent_failure_after_max_retries() {
    let mut store = Store::default();
    let tx_id = store.insert_transaction("25.00", "dlq");
    // Insert with retry_count already at max (5)
    let dlq_id = store.insert_entry(tx_id, "persistent error", 5);

    let processor = Processor::new(());
    assert_eq!(store.cycle(&processor, at(1_000)), Ok(vec![]));

    let row = &store.dlq[&dlq_id];
    assert!(row.permanently_failed, "should be marked permanently_failed");
    assert_eq!(row.retry_count, 5);
    assert_eq!(row.last_retry_at, Some(at(1_000)));
    assert_eq!(store.transactions[&tx_id].status, "dlq");
    assert!(store.notices.is_empty());
    assert!(store.invalidated.is_empty());
}

#[test]
fn missing_rows_fail_and_change_nothing() {
    let mut store = Store::default();
    let processor = Processor::new(());
    let missing = Err("no rows returned".to_string());
    assert_eq!(store.run(processor.process_transaction(1)), missing);
    assert_eq!(store.run(processor.requeue_dlq(1)), missing);
    let orphan = store.insert_entry(77, "Test error", 0);
    assert_eq!(store.run(processor.requeue_dlq(orphan)), missing);
    assert!(store.dlq.contains_key(&orphan));
    assert!(store.invalidated.is_empty());
}

#[test]
fn failure_ends_the_procedure() {
    for failing in 0..4 {
        let mut store = Store::default();
        let tx_id = store.insert_transaction("1.00", "dlq");
        let dlq_id = store.insert_entry(tx_id, "Test error", 0);
        store.failing = vec![failing];
        let processor = Processor::new(());
        let result = store.run(processor.requeue_dlq(dlq_id));
        assert_eq!(result, Err("connection lost".to_string()));
        assert_eq!(store.statements.len(), failing + 1);
        assert!(store.dlq.contains_key(&dlq_id));
        let status = if failing == 3 { "pending" } else { "dlq" };
        assert_eq!(store.transactions[&tx_id].status, status);
        assert!(store.invalidated.is_empty());
    }
}

#[test]
fn requeue_makes_its_requests_in_order() {
    let mut store = Store::default();
    let tx_id = store.insert_transaction("1.00", "dlq");
    let dlq_id = store.insert_entry(tx_id, "Test error", 0);
    store.run(Processor::new(()).requeue_dlq(dlq_id)).unwrap();
    assert_eq!(
        store.statements,
        vec![
            Statement::SelectTransactionId { dlq_id },
            Statement::SelectAssetCode { tx_id },
            Statement::RequeueTransaction { tx_id },
            Statement::DeleteEntry { dlq_id },
        ]
    );
}

#[test]
fn a_notice_goes_out_when_a_dispatcher_is_attached() {
    for webhooks_fail in [false, true] {
        let mut store = Store { webhooks_fail, ..Store::default() };
        let tx_id = store.insert_transaction("25.00", "dlq");
        let dlq_id = store.insert_entry(tx_id, "persistent error", 5);
        let processor = Processor::new(()).with_webhook_dispatcher(());
        assert_eq!(store.cycle(&processor, at(1_000)), Ok(vec![]));
        assert!(store.dlq[&dlq_id].permanently_failed);

        assert_eq!(DLQ_EXHAUSTED_EVENT, "transaction.dlq_exhausted");
        assert_eq!(store.notices.len(), 1);
        assert_eq!(store.notices[0].event(), ("transaction.dlq_exhausted", tx_id));
        let payload = store.notices[0].payload();
        let keys: Vec<&str> = payload.iter().map(|f| f.key).collect();
        assert_eq!(keys, vec!["dlq_id", "transaction_id", "error_reason", "retry_count"]);
        assert!(matches!(payload[0].value, PayloadValue::Id(id) if id == dlq_id));
        assert!(matches!(payload[1].value, PayloadValue::Id(id) if id == tx_id));
        assert!(matches!(&payload[2].value, PayloadValue::Text(t) if t == "persistent error"));
        assert!(matches!(payload[3].value, PayloadValue::Number(6)));
    }
}

#[test]
fn an_entry_is_retried_until_its_retries_are_used_up() {
    let mut store = Store::default();
    let tx_id = store.insert_transaction("50.00", "dlq");
    let dlq_id = store.insert_entry(tx_id, "transient error", 0);
    let processor = Processor::new(());
    let mut now = 1_000;
    for n in 1..=5 {
        store.cycle(&processor, at(now)).unwrap();
        let row = &store.dlq[&dlq_id];
        assert_eq!((row.retry_count, row.permanently_failed), (n, false));
        let next = row.next_retry_at.unwrap();
        assert_eq!(next, at(now + (60 << n)));
        // Not due before the recorded instant.
        store.cycle(&processor, at(next.secs - 1)).unwrap();
        assert_eq!(store.dlq[&dlq_id].retry_count, n);
        now = next.secs;
    }
    store.cycle(&processor, at(now)).unwrap();
    assert!(store.dlq[&dlq_id].permanently_failed);
    assert_eq!(store.dlq[&dlq_id].retry_count, 5);
    store.cycle(&processor, at(now + 1_000_000)).unwrap();
    assert_eq!(store.dlq[&dlq_id].last_retry_at, Some(at(now)));
}

#[test]
fn one_failing_entry_does_not_stop_the_others() {
    let mut store = Store::default();
    let mut entries = Vec::new();
    for n in 0..3 {
        let tx_id = store.insert_transaction("1.00", "dlq");
        let dlq_id = store.insert_entry(tx_id, "transient error", 0);
        store.dlq.get_mut(&dlq_id).unwrap().moved_to_dlq_at = at(n);
        entries.push((dlq_id, tx_id));
    }
    // Statement 0 reads the due entries; 3 and 4 would have been the second entry's.
    store.failing = vec![3];
    let errors = store.cycle(&Processor::new(()), at(1_000)).unwrap();
    assert_eq!(errors, vec!["connection lost".to_string()]);
    let counts: Vec<i32> = entries.iter().map(|(id, _)| store.dlq[id].retry_count).collect();
    assert_eq!(counts, vec![1, 0, 1]);
    let pending: Vec<bool> =
        entries.iter().map(|(_, tx)| store.transactions[tx].status == "pending").collect();
    assert_eq!(pending, vec![true, false, true]);
}

#[test]
fn counts_stay_bounded_whatever_fails() {
    let mut store = Store::default();
    let mut ids = Vec::new();
    for n in 0..6 {
        let tx_id = store.insert_transaction("1.00", "dlq");
        ids.push(store.insert_entry(tx_id, "transient error", n));
    }
    let processor = Processor::new(());
    let mut now = 1_000;
    for round in 0..60 {
        let before: Vec<Entry> = ids.iter().filter_map(|id| store.dlq.get(id)).map(copy).collect();
        // Every third statement fails, from a different one on in each round.
        let next = store.statements.len();
        store.failing = (0..40).map(|k| next + 3 * k + round % 3).collect();
        let _ = store.cycle(&processor, at(now));
        if round == 20 {
            let _ = store.run(processor.requeue_dlq(ids[0]));
        }
        for old in before {
            match store.dlq.get(&old.id) {
                Some(new) => {
                    let rise = new.retry_count - old.retry_count;
                    assert!(rise == 0 || (rise == 1 && new.retry_count <= 5));
                    if old.permanently_failed {
                        assert!(new.permanently_failed);
                        assert_eq!(new.last_retry_at, old.last_retry_at);
                        assert_eq!(new.next_retry_at, old.next_retry_at);
                    }
                    if !old.is_due(&at(now)) {
                        assert_eq!(new.last_retry_at, old.last_retry_at);
                    }
                }
                None => assert_eq!(old.id, ids[0]),
            }
        }
        now += 1_000;
    }
    // Once nothing fails any more, every entry still in the queue uses up its retries.
    store.failing = vec![];
    for _ in 0..10 {
        assert_eq!(store.cycle(&processor, at(now)), Ok(vec![]));
        now += 10_000;
    }
    assert!(store.dlq.values().all(|row| row.permanently_failed && row.retry_count == 5));
}

#[test]
fn what_is_over_the_limit_waits_for_the_next_cycle() {
    let mut store = Store::default();
    for n in 0..60 {
        let tx_id = store.insert_transaction("1.00", "dlq");
        let dlq_id = store.insert_entry(tx_id, "transient error", 0);
        store.dlq.get_mut(&dlq_id).unwrap().moved_to_dlq_at = at(n);
    }
    let processor = Processor::new(());
    store.cycle(&processor, at(1_000)).unwrap();
    for row in store.dlq.values() {
        assert_eq!(row.retry_count, if row.moved_to_dlq_at.secs < 50 { 1 } else { 0 });
    }
    store.cycle(&processor, at(1_001)).unwrap();
    assert!(store.dlq.values().all(|row| row.retry_count == 1));
}

#[test]
fn failing_to_read_the_due_entries_ends_the_cycle() {
    let mut store = Store { failing: vec![0], ..Store::default() };
    let result = store.cycle(&Processor::new(()), at(1_000));
    assert_eq!(result, Err("connection lost".to_string()));
}

fn entry(id: u128, moved: i64) -> Entry {
    TransactionDlq {
        id,
        transaction_id: id,
        asset_code: "USD".to_string(),
        error_reason: String::new(),
        retry_count: 0,
        permanently_failed: false,
        moved_to_dlq_at: at(moved),
        last_retry_at: None,
        next_retry_at: None,
    }
}

#[test]
fn due_entries_in_queue_order() {
    let mut rows = vec![entry(0, 30), entry(1, 10), entry(2, 20), entry(3, 10), entry(4, 0)];
    rows[4].permanently_failed = true;
    rows[2].next_retry_at = Some(at(501));
    assert_eq!(select_due(&rows, &at(500)), vec![1, 3, 0]);
    assert_eq!(select_due(&rows, &at(501)), vec![1, 3, 2, 0]);
    assert!(!rows[2].is_due(&at(500)));
    assert!(rows[2].is_due(&at(501)));
    assert!(!rows[4].is_due(&at(501)));
    let none: Vec<Entry> = Vec::new();
    assert!(select_due(&none, &at(0)).is_empty());
}

#[test]
fn a_cycle_takes_up_a_limited_number() {
    let rows: Vec<Entry> = (0..120).map(|n| entry(n as u128, 1_000 - n)).collect();
    let picked = select_due(&rows, &at(5_000));
    assert_eq!(DUE_LIMIT, 50);
    assert_eq!(picked, (70..120).rev().collect::<Vec<usize>>());
    let rows: Vec<Entry> = (0..120).map(|n| entry(n as u128, 7)).collect();
    assert_eq!(select_due(&rows, &at(5_000)), (0..50).collect::<Vec<usize>>());
}

#[test]
fn a_cycle_with_settings() {
    let due: Result<Vec<Entry>, String> = Ok(vec![entry(1, 0), entry(2, 0)]);
    let mut cycle = DlqCycle::begin(due, 0, 60).unwrap();
    let processor = Processor::new(());
    assert_eq!(cycle.peek().unwrap().id, 1);
    match cycle.next(&processor, at(9)) {
        Some(Flow::GiveUp { dlq_id: 1, last_retry_at, notice: None }) => {
            assert_eq!(last_retry_at, at(9))
        }
        other => panic!("unexpected flow {:?}", other),
    }
    assert_eq!(cycle.peek().unwrap().id, 2);
    assert!(cycle.next(&processor, at(9)).is_some());
    assert!(cycle.peek().is_none());
    assert!(cycle.next(&processor, at(9)).is_none());
}

#[test]
fn a_retry_that_cannot_be_scheduled_requeues_and_records_nothing() {
    for (retry_count, base_delay) in [(0, i64::MAX), (-2, 60)] {
        let mut store = Store::default();
        let tx_id = store.insert_transaction("1.00", "dlq");
        let dlq_id = store.insert_entry(tx_id, "transient error", retry_count);
        let due: Result<Vec<Entry>, String> = Ok(vec![copy(&store.dlq[&dlq_id])]);
        let mut cycle = DlqCycle::begin(due, 5, base_delay).unwrap();
        let flow = cycle.next(&Processor::new(()), at(0)).unwrap();
        assert!(matches!(flow, Flow::Retry { next: None, .. }));
        assert_eq!(store.run(flow), Err("unschedulable".to_string()));
        assert_eq!(store.transactions[&tx_id].status, "pending");
        assert_eq!(store.dlq[&dlq_id].retry_count, retry_count);
        assert_eq!(store.dlq[&dlq_id].next_retry_at, None);
        assert_eq!(store.statements, vec![Statement::RequeueTransaction { tx_id }]);
    }
}

#[test]
fn an_unschedulable_retry_whose_update_fails_is_an_ordinary_failure() {
    let mut store = Store { failing: vec![0], ..Store::default() };
    let tx_id = store.insert_transaction("1.00", "dlq");
    let dlq_id = store.insert_entry(tx_id, "transient error", 0);
    let entry = copy(&store.dlq[&dlq_id]);
    let flow = Processor::new(()).retry_dlq_entry(&entry, 5, i64::MAX, at(0));
    assert_eq!(store.run(flow), Err("connection lost".to_string()));
    assert_eq!(store.transactions[&tx_id].status, "dlq");
}

#[test]
fn a_retry_beyond_thirty_keeps_doubling() {
    let mut e = entry(1, 0);
    e.retry_count = 30;
    match Processor::new(()).retry_dlq_entry(&e, 100, 1, at(0)) {
        Flow::Retry { retry_count: 31, next, .. } => assert_eq!(next, Some(at(2_147_483_648))),
        other => panic!("unexpected flow {:?}", other),
    }
}

#[test]
fn giving_up_needs_no_schedule() {
    let mut e = entry(1, 0);
    e.retry_count = 5;
    let flow = Processor::new(()).retry_dlq_entry(&e, 5, i64::MAX, at(0));
    assert!(matches!(flow, Flow::GiveUp { dlq_id: 1, .. }));
}

#[test]
fn rows_stay_under_their_identifiers() {
    let mut store = Store::default();
    let tx_id = store.insert_transaction("1.00", "dlq");
    for retry_count in [0, 5, 3] {
        store.insert_entry(tx_id, "transient error", retry_count);
    }
    store.cycle(&Processor::new(()), at(1_000)).unwrap();
    assert_eq!(store.dlq.len(), 3);
    assert!(store.dlq.iter().all(|(id, row)| *id == row.id));
}

#[test]
fn statement_parameters() {
    let id = [Param::Id(7)];
    assert_eq!(Statement::SelectAssetCode { tx_id: 7 }.params(), id);
    assert_eq!(Statement::SelectTransactionId { dlq_id: 7 }.params(), id);
    assert_eq!(Statement::CompleteTransaction { tx_id: 7 }.params(), id);
    assert_eq!(Statement::RequeueTransaction { tx_id: 7 }.params(), id);
    assert_eq!(Statement::DeleteEntry { dlq_id: 7 }.params(), id);
    assert_eq!(Statement::SelectDue { now: at(3) }.params(), [Param::At(at(3))]);
    assert_eq!(
        Statement::FailEntry { dlq_id: 7, last_retry_at: at(3) }.params(),
        [Param::At(at(3)), Param::Id(7)]
    );
    let reschedule = Statement::RescheduleEntry {
        dlq_id: 7,
        retry_count: 2,
        last_retry_at: at(3),
        next_retry_at: at(4),
    };
    assert_eq!(
        reschedule.params(),
        [Param::Count(2), Param::At(at(3)), Param::At(at(4)), Param::Id(7)]
    );
    // As many values as placeholders.
    for statement in [reschedule, Statement::DeleteEntry { dlq_id: 7 }] {
        assert_eq!(statement.params().len(), statement.sql().matches('$').count());
    }
}

#[test]
fn replies_of_another_kind_leave_the_flow_waiting() {
    let flow = Processor::new(()).process_transaction(4);
    match flow.step::<String>(Reply::Done) {
        Step::Continue(Flow::FetchAsset { tx_id: 4 }) => {}
        other => panic!("unexpected step {:?}", other),
    }
}

#[test]
fn statement_texts() {
    let sql = [
        (
            Statement::SelectAssetCode { tx_id: 1 },
            "SELECT asset_code FROM transactions WHERE id = $1",
        ),
        (
            Statement::SelectTransactionId { dlq_id: 1 },
            "SELECT transaction_id FROM transaction_dlq WHERE id = $1",
        ),
        (
            Statement::CompleteTransaction { tx_id: 1 },
            "UPDATE transactions SET status = 'completed', updated_at = NOW() WHERE id = $1",
        ),
        (
            Statement::RequeueTransaction { tx_id: 1 },
            "UPDATE transactions SET status = 'pending', updated_at = NOW() WHERE id = $1",
        ),
        (
            Statement::DeleteEntry { dlq_id: 1 },
            "DELETE FROM transaction_dlq WHERE id = $1",
        ),
        (
            Statement::FailEntry { dlq_id: 1, last_retry_at: at(0) },
            "UPDATE transaction_dlq SET permanently_failed = TRUE, last_retry_at = $1 WHERE id = $2",
        ),
        (
            Statement::SelectDue { now: at(0) },
            "SELECT * FROM transaction_dlq WHERE permanently_failed = FALSE AND (next_retry_at IS NULL OR next_retry_at <= $1) ORDER BY moved_to_dlq_at ASC LIMIT 50",
        ),
        (
            Statement::RescheduleEntry {
                dlq_id: 1,
                retry_count: 1,
                last_retry_at: at(0),
                next_retry_at: at(0),
            },
            "UPDATE transaction_dlq SET retry_count = $1, last_retry_at = $2, next_retry_at = $3 WHERE id = $4",
        ),
    ];
    for (statement, text) in sql {
        assert_eq!(statement.sql(), text);
    }
    assert!(Statement::SelectDue { now: at(0) }.sql().ends_with(&format!("LIMIT {}", DUE_LIMIT)));
}

#[test]
fn the_dispatcher_travels_with_the_processor() {
    let plain: TransactionProcessor<u8, u8> = TransactionProcessor::new(7);
    assert_eq!((plain.pool, plain.webhook_dispatcher), (7, None));
    let attached = plain.clone().with_webhook_dispatcher(9).clone();
    assert_eq!((attached.pool, attached.webhook_dispatcher), (7, Some(9)));
}
