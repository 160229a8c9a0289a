//! Batching of inserts.
use sqlx::types::BigDecimal;
use std::str::FromStr;
use synapse_core::batch::{
    batch_transactions, collect_deadline_ms, flush_batch, next_deadline_ms, BatchAction, BatchEvent,
    BatchFlusher, Collecting,
};
use synapse_core::{
    AppError, BatchInsertRequest, BATCH_CHANNEL_CAPACITY, BATCH_INSERT_SIZE,
    BATCH_INSERT_TIMEOUT_MS,
};
use tokio::sync::{mpsc, oneshot};

#[derive(Clone, Debug, PartialEq)]
struct Transaction {
    stellar_account: String,
    amount: BigDecimal,
    asset_code: String,
}

fn request(n: u32) -> BatchInsertRequest<u32, u32> {
    BatchInsertRequest { transaction: n, reply: n + 1000 }
}

fn numbers(batch: &Vec<BatchInsertRequest<u32, u32>>) -> Vec<u32> {
    batch.iter().map(|r| r.transaction).collect()
}

#[test]
fn limits() {
    assert_eq!(BATCH_CHANNEL_CAPACITY, 4096);
    assert_eq!(BATCH_INSERT_SIZE, 100);
    assert_eq!(BATCH_INSERT_TIMEOUT_MS, 200);
}

/// The flusher flushes on timeout even with fewer than BATCH_INSERT_SIZE items.
#[test]
fn test_batch_timeout_flush() {
    type Reply = oneshot::Sender<Result<Transaction, AppError>>;
    let (tx, mut rx) = mpsc::channel::<BatchInsertRequest<Transaction, Reply>>(16);
    let (reply_tx, mut reply_rx) = oneshot::channel();

    let dummy_tx = Transaction {
        stellar_account: "GAAAAAAAAAAAAAAAAAAAAAAAAAAAAAAAAAAAAAAAAAAAAAAAAAAAAAAA".to_string(),
        amount: BigDecimal::from_str("1.00").unwrap(),
        asset_code: "USD".to_string(),
    };

    let sent = BatchInsertRequest { transaction: dummy_tx.clone(), reply: reply_tx };
    assert!(tx.try_send(sent).is_ok());

    let req = rx.try_recv().unwrap();
    assert_eq!(req.transaction.stellar_account, dummy_tx.stellar_account);

    let mut flusher = BatchFlusher::new();
    assert!(matches!(flusher.step(BatchEvent::Received(req)), BatchAction::Wait));
    let batch = match flusher.step(BatchEvent::TimedOut) {
        BatchAction::Flush(batch) => batch,
        _ => panic!("the timeout should flush"),
    };
    let inserted = batch_transactions(&batch).into_iter().map(Ok).collect();
    for (reply, result) in flush_batch(batch, inserted) {
        assert!(reply.send(result).is_ok());
    }

    let result = reply_rx.try_recv().unwrap();
    assert!(result.is_ok());
    assert_eq!(result.unwrap().stellar_account, dummy_tx.stellar_account);
}

#[test]
fn full_batch_is_flushed_at_once() {
    let mut flusher = BatchFlusher::new();
    for n in 0..99 {
        assert!(matches!(flusher.step(BatchEvent::Received(request(n))), BatchAction::Wait));
    }
    match flusher.step(BatchEvent::Received(request(99))) {
        BatchAction::Flush(batch) => assert_eq!(numbers(&batch), (0..100).collect::<Vec<u32>>()),
        _ => panic!("a full batch should be flushed"),
    }
    assert!(matches!(flusher.step(BatchEvent::TimedOut), BatchAction::Restart));
}

#[test]
fn closing_flushes_the_rest() {
    let mut flusher = BatchFlusher::new();
    flusher.step(BatchEvent::Received(request(1)));
    flusher.step(BatchEvent::Received(request(2)));
    match flusher.step(BatchEvent::Closed) {
        BatchAction::FlushAndStop(batch) => assert_eq!(numbers(&batch), vec![1, 2]),
        _ => panic!("closing should flush"),
    }
}

#[test]
fn closing_with_nothing_buffered_stops() {
    let mut flusher: BatchFlusher<u32, u32> = BatchFlusher::new();
    assert!(matches!(flusher.step(BatchEvent::Closed), BatchAction::Stop));
}

#[test]
fn empty_timeout_flushes_nothing() {
    let mut flusher: BatchFlusher<u32, u32> = BatchFlusher::new();
    assert!(matches!(flusher.step(BatchEvent::TimedOut), BatchAction::Restart));
}

#[test]
fn every_request_is_flushed_once_in_order() {
    let mut flusher = BatchFlusher::new();
    let mut written: Vec<u32> = Vec::new();
    for n in 0..250 {
        let mut actions = vec![flusher.step(BatchEvent::Received(request(n)))];
        if n == 120 || n == 121 {
            actions.push(flusher.step(BatchEvent::TimedOut));
        }
        for action in actions {
            if let BatchAction::Flush(batch) = action {
                assert!(!batch.is_empty() && batch.len() <= BATCH_INSERT_SIZE);
                written.extend(numbers(&batch));
            }
        }
    }
    if let BatchAction::FlushAndStop(batch) = flusher.step(BatchEvent::Closed) {
        written.extend(numbers(&batch));
    }
    assert_eq!(written, (0..250).collect::<Vec<u32>>());
}

#[test]
fn results_go_to_their_requesters() {
    let batch = vec![request(1), request(2), request(3)];
    assert_eq!(batch_transactions(&batch), vec![1, 2, 3]);
    let replies = flush_batch(batch, vec![Ok(10), Err("duplicate key".to_string()), Ok(30)]);
    assert_eq!(replies.len(), 3);
    assert!(matches!(replies[0], (1001, Ok(10))));
    match &replies[1] {
        (1002, Err(AppError::DatabaseError(message))) => assert_eq!(message, "duplicate key"),
        other => panic!("unexpected reply {:?}", other),
    }
    assert!(matches!(replies[2], (1003, Ok(30))));
}

#[test]
fn too_few_or_too_many_results() {
    let replies = flush_batch(vec![request(1), request(2)], vec![Ok(10)]);
    assert_eq!(replies.len(), 1);
    assert!(matches!(replies[0], (1001, Ok(10))));
    let replies = flush_batch(vec![request(1)], vec![Ok(10), Ok(20)]);
    assert_eq!(replies.len(), 1);
    assert!(matches!(replies[0], (1001, Ok(10))));
    let replies: Vec<(u32, Result<u32, AppError>)> = flush_batch(vec![], vec![Ok(10)]);
    assert!(replies.is_empty());
}

#[test]
fn deadlines() {
    assert_eq!(collect_deadline_ms(0), 200);
    assert_eq!(collect_deadline_ms(1_000), 1_200);
    assert_eq!(collect_deadline_ms(u64::MAX - 200), u64::MAX);
    assert_eq!(next_deadline_ms(Collecting::Continues, 1_200, 1_150), Some(1_200));
    assert_eq!(next_deadline_ms(Collecting::BeginsAgain, 1_200, 1_250), Some(1_450));
    assert_eq!(next_deadline_ms(Collecting::Over, 1_200, 1_250), None);
    assert_eq!(next_deadline_ms(Collecting::Continues, 1_200, u64::MAX), Some(1_200));
}

/// Runs the flusher on requests that come at the given times; inserts take `write_ms`.
/// Gives for each request when it was taken and when it was answered.
fn timeline(arrivals: &[u64], write_ms: u64) -> Vec<(u64, u64)> {
    let mut flusher = BatchFlusher::new();
    let mut now = 0;
    let mut deadline = Some(collect_deadline_ms(now));
    let mut todo = arrivals.iter().copied().enumerate().peekable();
    let mut taken = vec![0; arrivals.len()];
    let mut answered = vec![0; arrivals.len()];
    while let Some(end) = deadline {
        let due = todo.peek().map(|(n, at)| (*n, (*at).max(now)));
        let event = match due {
            Some((n, at)) if at <= end => {
                todo.next();
                now = at;
                taken[n] = at;
                BatchEvent::Received(request(n as u32))
            }
            Some(_) => {
                now = end;
                BatchEvent::TimedOut
            }
            None if now < end => {
                now = end;
                BatchEvent::TimedOut
            }
            None => BatchEvent::Closed,
        };
        let action = flusher.step(event);
        let collecting = action.collecting();
        if let BatchAction::Flush(batch) | BatchAction::FlushAndStop(batch) = action {
            now += write_ms;
            for r in batch {
                answered[r.transaction as usize] = now;
            }
        }
        deadline = next_deadline_ms(collecting, end, now);
        if todo.peek().is_none() && deadline.is_some() && answered.iter().all(|t| *t > 0) {
            break;
        }
    }
    taken.into_iter().zip(answered).collect()
}

#[test]
fn a_single_request_is_answered_in_time() {
    assert_eq!(timeline(&[50], 0), vec![(50, 200)]);
    assert_eq!(timeline(&[250], 10), vec![(250, 410)]);
    for at in 0..450 {
        for (taken, answered) in timeline(&[at], 200) {
            assert!(answered <= taken + 2 * BATCH_INSERT_TIMEOUT_MS);
        }
    }
}

#[test]
fn requests_keep_the_deadline_of_their_batch() {
    let answers = timeline(&[10, 150, 199, 200, 201, 390], 5);
    assert_eq!(
        answers,
        vec![(10, 205), (150, 205), (199, 205), (200, 205), (205, 410), (390, 410)]
    );
}

#[test]
fn a_full_batch_does_not_wait() {
    let arrivals: Vec<u64> = (0..150).map(|_| 20).collect();
    let answers = timeline(&arrivals, 1);
    assert!(answers[..100].iter().all(|a| *a == (20, 21)));
    assert!(answers[100..].iter().all(|a| *a == (21, 222)));
}
