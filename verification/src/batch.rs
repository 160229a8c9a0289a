//! Batching of inserts: requests are collected and written together, when enough of them
//! are there or after a while.
use crate::error::AppError;
use vstd::prelude::*;

verus! {

/// Channel capacity for the batch insert buffer.
pub const BATCH_CHANNEL_CAPACITY: usize = 4096;

/// Flush when this many items are buffered.
pub const BATCH_INSERT_SIZE: usize = 100;

/// Flush after this many milliseconds even if the batch isn't full.
pub const BATCH_INSERT_TIMEOUT_MS: u64 = 200;

/// A single item sent through the batch insert channel: a transaction `T` to insert, and
/// the channel `R` on which its result is awaited.
#[derive(Debug)]
pub struct BatchInsertRequest<T, R> {
    pub transaction: T,
    pub reply: R,
}

/// What the flusher meets while it collects.
#[derive(Debug)]
pub enum BatchEvent<T, R> {
    /// A request came in.
    Received(BatchInsertRequest<T, R>),
    /// No more requests will come.
    Closed,
    /// `BATCH_INSERT_TIMEOUT_MS` have passed since the collecting began.
    TimedOut,
}

/// What the flusher does next.
#[derive(Debug)]
pub enum BatchAction<T, R> {
    /// Go on collecting until the same deadline.
    Wait,
    /// Begin to collect again, with a new deadline.
    Restart,
    /// Write this batch, then begin to collect again, with a new deadline.
    Flush(Vec<BatchInsertRequest<T, R>>),
    /// Write this batch, then stop.
    FlushAndStop(Vec<BatchInsertRequest<T, R>>),
    /// Stop.
    Stop,
}

/// The requests that an event brings in.
pub open spec fn received<T, R>(event: BatchEvent<T, R>) -> Seq<BatchInsertRequest<T, R>> {
    match event {
        BatchEvent::Received(request) => seq![request],
        _ => Seq::empty(),
    }
}

/// Whether the event ends the collecting, with `collected` being what is there by then: a
/// full batch does, and so do the deadline and the closing of the channel.
pub open spec fn ends_batch<T, R>(
    collected: Seq<BatchInsertRequest<T, R>>,
    event: BatchEvent<T, R>,
) -> bool {
    event is Received ==> collected.len() >= BATCH_INSERT_SIZE
}

/// The collector of requests.
pub struct BatchFlusher<T, R> {
    buf: Vec<BatchInsertRequest<T, R>>,
}

impl<T, R> View for BatchFlusher<T, R> {
    type V = Seq<BatchInsertRequest<T, R>>;

    closed spec fn view(&self) -> Seq<BatchInsertRequest<T, R>> {
        self.buf@
    }
}

impl<T, R> BatchFlusher<T, R> {
    /// A batch that is full is never left waiting.
    #[verifier::type_invariant]
    spec fn inv(self) -> bool {
        self.buf.len() < BATCH_INSERT_SIZE
    }

    /// A collector with nothing in it.
    pub fn new() -> (r: Self)
        ensures
            r@ == Seq::<BatchInsertRequest<T, R>>::empty(),
    {
        BatchFlusher { buf: Vec::with_capacity(BATCH_INSERT_SIZE) }
    }

    /// Takes in an event.
    pub fn step(&mut self, event: BatchEvent<T, R>) -> (r: BatchAction<T, R>)
        ensures
            ({
                let collected = old(self)@ + received(event);
                if !ends_batch(collected, event) {
                    r is Wait && final(self)@ == collected
                } else {
                    &&& final(self)@ == Seq::<BatchInsertRequest<T, R>>::empty()
                    &&& match (event, collected.len() > 0) {
                        (BatchEvent::Closed, true) => r matches BatchAction::FlushAndStop(batch)
                            && batch@ == collected,
                        (BatchEvent::Closed, false) => r is Stop,
                        (_, true) => r matches BatchAction::Flush(batch) && batch@ == collected,
                        (_, false) => r is Restart,
                    }
                }
            }),
            match event {
                BatchEvent::Received(request) => {
                    let collected = old(self)@.push(request);
                    if collected.len() < BATCH_INSERT_SIZE {
                        &&& r is Wait
                        &&& final(self)@ == collected
                        &&& r.then_collecting() is Continues
                    } else {
                        &&& r matches BatchAction::Flush(batch)
                        &&& batch@ == collected
                        &&& final(self)@.len() == 0
                        &&& r.then_collecting() is BeginsAgain
                    }
                },
                BatchEvent::TimedOut => {
                    &&& r is Restart <==> old(self)@.len() == 0
                    &&& old(self)@.len() > 0 ==> (r matches BatchAction::Flush(batch) && batch@
                        == old(self)@)
                    &&& final(self)@.len() == 0
                    &&& r.then_collecting() is BeginsAgain
                },
                BatchEvent::Closed => {
                    &&& r is Stop <==> old(self)@.len() == 0
                    &&& old(self)@.len() > 0 ==> (r matches BatchAction::FlushAndStop(batch)
                        && batch@ == old(self)@)
                    &&& final(self)@.len() == 0
                    &&& r.then_collecting() is Over
                },
            },
            final(self)@.len() < BATCH_INSERT_SIZE,
            r matches BatchAction::Flush(batch) ==> 0 < batch.len() <= BATCH_INSERT_SIZE,
            r matches BatchAction::FlushAndStop(batch) ==> 0 < batch.len() < BATCH_INSERT_SIZE,
    {
        proof {
            use_type_invariant(&*self);
        }
        let mut batch: Vec<BatchInsertRequest<T, R>> = Vec::with_capacity(BATCH_INSERT_SIZE);
        std::mem::swap(&mut self.buf, &mut batch);
        match event {
            BatchEvent::Received(request) => {
                batch.push(request);
                if batch.len() >= BATCH_INSERT_SIZE {
                    BatchAction::Flush(batch)
                } else {
                    std::mem::swap(&mut self.buf, &mut batch);
                    BatchAction::Wait
                }
            },
            BatchEvent::Closed => {
                if batch.len() > 0 {
                    BatchAction::FlushAndStop(batch)
                } else {
                    BatchAction::Stop
                }
            },
            BatchEvent::TimedOut => {
                if batch.len() > 0 {
                    BatchAction::Flush(batch)
                } else {
                    BatchAction::Restart
                }
            },
        }
    }
}

/// When collecting that began at `started_ms` ends even if the batch isn't full.
pub fn collect_deadline_ms(started_ms: u64) -> (r: u64)
    requires
        started_ms + BATCH_INSERT_TIMEOUT_MS <= u64::MAX,
    ensures
        r == started_ms + BATCH_INSERT_TIMEOUT_MS,
{
    started_ms + BATCH_INSERT_TIMEOUT_MS
}

/// What the flusher does once an action is done with.
#[derive(Clone, Copy, Debug, PartialEq, Eq, Structural)]
pub enum Collecting {
    /// It goes on with the same deadline.
    Continues,
    /// It begins again, with a new deadline.
    BeginsAgain,
    /// It is over.
    Over,
}

impl<T, R> BatchAction<T, R> {
    /// What the action means for the collecting.
    pub open spec fn then_collecting(self) -> Collecting {
        match self {
            BatchAction::Wait => Collecting::Continues,
            BatchAction::Restart => Collecting::BeginsAgain,
            BatchAction::Flush(_) => Collecting::BeginsAgain,
            BatchAction::FlushAndStop(_) => Collecting::Over,
            BatchAction::Stop => Collecting::Over,
        }
    }

    /// What the action means for the collecting.
    pub fn collecting(&self) -> (r: Collecting)
        ensures
            r == self.then_collecting(),
            r is Over <==> self is Stop || self is FlushAndStop,
            r is Continues <==> self is Wait,
            r is BeginsAgain <==> self is Restart || self is Flush,
    {
        match self {
            BatchAction::Wait => Collecting::Continues,
            BatchAction::Restart => Collecting::BeginsAgain,
            BatchAction::Flush(_) => Collecting::BeginsAgain,
            BatchAction::FlushAndStop(_) => Collecting::Over,
            BatchAction::Stop => Collecting::Over,
        }
    }
}

/// The deadline that holds after an action, which was done with at `resumed_ms`: the same
/// while collecting continues, a new one when it begins again, none when it is over.
pub fn next_deadline_ms(collecting: Collecting, deadline_ms: u64, resumed_ms: u64) -> (r: Option<
    u64,
>)
    requires
        collecting is BeginsAgain ==> resumed_ms + BATCH_INSERT_TIMEOUT_MS <= u64::MAX,
    ensures
        match collecting {
            Collecting::Continues => r == Some(deadline_ms),
            Collecting::BeginsAgain => r is Some && r->0 == resumed_ms + BATCH_INSERT_TIMEOUT_MS,
            Collecting::Over => r is None,
        },
{
    match collecting {
        Collecting::Continues => Some(deadline_ms),
        Collecting::BeginsAgain => Some(collect_deadline_ms(resumed_ms)),
        Collecting::Over => None,
    }
}

/// The transactions of a batch, as handed to the database.
pub fn batch_transactions<T: Clone, R>(batch: &Vec<BatchInsertRequest<T, R>>) -> (r: Vec<T>)
    ensures
        r.len() == batch.len(),
        forall|i: int|
            0 <= i < batch.len() ==> cloned(batch[i].transaction, #[trigger] r@[i]),
{
    let mut r: Vec<T> = Vec::with_capacity(batch.len());
    let mut i: usize = 0;
    while i < batch.len()
        invariant
            i <= batch.len(),
            r.len() == i,
            forall|k: int| 0 <= k < i ==> cloned(batch[k].transaction, #[trigger] r@[k]),
        decreases batch.len() - i,
    {
        r.push(batch[i].transaction.clone());
        i = i + 1;
    }
    r
}

/// What a requester is told of the database's result for its transaction.
pub open spec fn mapped_result<T>(result: Result<T, String>) -> Result<T, AppError> {
    match result {
        Ok(transaction) => Ok(transaction),
        Err(message) => Err(AppError::DatabaseError(message)),
    }
}

/// Pairs the requests of a batch with the database's results, in order: which channel is
/// told what. Requests beyond the results are dropped unanswered, and results beyond the
/// requests are dropped.
pub fn flush_batch<T, R>(
    batch: Vec<BatchInsertRequest<T, R>>,
    results: Vec<Result<T, String>>,
) -> (r: Vec<(R, Result<T, AppError>)>)
    ensures
        r.len() == if batch.len() <= results.len() {
            batch.len()
        } else {
            results.len()
        },
        forall|i: int|
            0 <= i < r.len() ==> (#[trigger] r@[i]) == (batch[i].reply, mapped_result(results[i])),
        forall|i: int|
            0 <= i < r.len() ==> {
                &&& (#[trigger] r@[i]).0 == batch[i].reply
                &&& match results[i] {
                    Ok(transaction) => r@[i].1 == Ok::<T, AppError>(transaction),
                    Err(message) => r@[i].1 == Err::<T, AppError>(
                        AppError::DatabaseError(message),
                    ),
                }
            },
{
    let ghost given = results@;
    let mut results = results;
    let mut todo: Vec<Result<T, String>> = Vec::with_capacity(results.len());
    while results.len() > 0
        invariant
            results@.len() <= given.len(),
            results@ == given.take(results@.len() as int),
            todo@ == given.skip(results@.len() as int).reverse(),
        decreases results.len(),
    {
        match results.pop() {
            Some(result) => todo.push(result),
            None => {},
        }
        assert(todo@ =~= given.skip(results@.len() as int).reverse());
        assert(results@ =~= given.take(results@.len() as int));
    }
    assert(todo@ =~= given.reverse());
    let mut r: Vec<(R, Result<T, AppError>)> = Vec::with_capacity(batch.len());
    for request in it: batch
        invariant
            it.seq() == batch@,
            r.len() == it.index() || r.len() == given.len(),
            r.len() <= it.index(),
            r.len() <= given.len(),
            todo@ == given.skip(r.len() as int).reverse(),
            forall|i: int|
                0 <= i < r.len() ==> (#[trigger] r@[i]) == (batch@[i].reply, mapped_result(
                    given[i],
                )),
    {
        match todo.pop() {
            Some(result) => {
                let mapped = match result {
                    Ok(transaction) => Ok(transaction),
                    Err(message) => Err(AppError::DatabaseError(message)),
                };
                r.push((request.reply, mapped));
            },
            None => {},
        }
        assert(todo@ =~= given.skip(r.len() as int).reverse());
    }
    r
}

/// What is being collected after these events.
pub open spec fn buffered<T, R>(events: Seq<BatchEvent<T, R>>) -> Seq<BatchInsertRequest<T, R>>
    decreases events.len(),
{
    if events.len() == 0 {
        Seq::empty()
    } else {
        let collected = buffered(events.drop_last()) + received(events.last());
        if ends_batch(collected, events.last()) {
            Seq::empty()
        } else {
            collected
        }
    }
}

/// The batches that are written in the course of these events.
pub open spec fn flushed<T, R>(events: Seq<BatchEvent<T, R>>) -> Seq<Seq<BatchInsertRequest<T, R>>>
    decreases events.len(),
{
    if events.len() == 0 {
        Seq::empty()
    } else {
        let collected = buffered(events.drop_last()) + received(events.last());
        if ends_batch(collected, events.last()) && collected.len() > 0 {
            flushed(events.drop_last()).push(collected)
        } else {
            flushed(events.drop_last())
        }
    }
}

/// All requests of some batches, one batch after the other.
pub open spec fn in_order<T, R>(batches: Seq<Seq<BatchInsertRequest<T, R>>>) -> Seq<
    BatchInsertRequest<T, R>,
>
    decreases batches.len(),
{
    if batches.len() == 0 {
        Seq::empty()
    } else {
        in_order(batches.drop_last()) + batches.last()
    }
}

/// All requests that these events brought in.
pub open spec fn all_received<T, R>(events: Seq<BatchEvent<T, R>>) -> Seq<BatchInsertRequest<T, R>>
    decreases events.len(),
{
    if events.len() == 0 {
        Seq::empty()
    } else {
        all_received(events.drop_last()) + received(events.last())
    }
}

/// The flusher that has taken in `events` and takes in one more does what `buffered` and
/// `flushed` say: it holds what is being collected, and hands out the batch that is added
/// to those written.
pub proof fn law_step_follows_events<T, R>(events: Seq<BatchEvent<T, R>>, event: BatchEvent<T, R>)
    ensures
        ({
            let collected = buffered(events) + received(event);
            let more = events.push(event);
            if !ends_batch(collected, event) {
                buffered(more) == collected && flushed(more) == flushed(events)
            } else {
                &&& buffered(more) == Seq::<BatchInsertRequest<T, R>>::empty()
                &&& flushed(more) == if collected.len() > 0 {
                    flushed(events).push(collected)
                } else {
                    flushed(events)
                }
            }
        }),
{
    assert(events.push(event).drop_last() =~= events);
}

/// No request is lost, written twice or overtaken: the batches written and what is still
/// being collected are, in order, the requests that came in. No batch is empty or larger
/// than `BATCH_INSERT_SIZE`, and what is being collected is less than that.
pub proof fn law_every_request_flushed_once<T, R>(events: Seq<BatchEvent<T, R>>)
    ensures
        in_order(flushed(events)) + buffered(events) == all_received(events),
        buffered(events).len() < BATCH_INSERT_SIZE,
        forall|i: int|
            0 <= i < flushed(events).len() ==> 0 < (#[trigger] flushed(events)[i]).len()
                <= BATCH_INSERT_SIZE,
    decreases events.len(),
{
    if events.len() > 0 {
        let before = events.drop_last();
        law_every_request_flushed_once(before);
        let collected = buffered(before) + received(events.last());
        if ends_batch(collected, events.last()) && collected.len() > 0 {
            assert(flushed(before).push(collected).drop_last() =~= flushed(before));
        }
        assert(in_order(flushed(events)) + buffered(events) =~= all_received(before) + received(
            events.last(),
        ));
    } else {
        assert(in_order(flushed(events)) + buffered(events) =~= all_received(events));
    }
}

/// The deadline and the closing of the channel leave nothing behind: by then every
/// request that came in has been written.
pub proof fn law_nothing_left_behind<T, R>(events: Seq<BatchEvent<T, R>>)
    requires
        events.len() > 0,
        !(events.last() is Received),
    ensures
        buffered(events) == Seq::<BatchInsertRequest<T, R>>::empty(),
        in_order(flushed(events)) == all_received(events),
{
    law_every_request_flushed_once(events);
    assert(in_order(flushed(events)) + buffered(events) =~= in_order(flushed(events)));
}

/// An event with its times in milliseconds: when it comes, and when the flusher is done
/// with it. By then a batch that it made the flusher write has been written and answered.
pub struct TimedEvent<T, R> {
    pub at_ms: nat,
    pub resumed_ms: nat,
    pub event: BatchEvent<T, R>,
}

/// The events without their times.
pub open spec fn untimed<T, R>(events: Seq<TimedEvent<T, R>>) -> Seq<BatchEvent<T, R>> {
    events.map_values(|e: TimedEvent<T, R>| e.event)
}

/// What is there when event `j` has come in: the batch that it makes the flusher write, if
/// it does.
pub open spec fn batch_at<T, R>(events: Seq<TimedEvent<T, R>>, j: int) -> Seq<
    BatchInsertRequest<T, R>,
> {
    buffered(untimed(events.take(j))) + received(events[j].event)
}

/// Whether event `j` ends the collecting.
pub open spec fn ends_at<T, R>(events: Seq<TimedEvent<T, R>>, j: int) -> bool {
    ends_batch(batch_at(events, j), events[j].event)
}

/// When the flusher was last done with an event, having begun at `started_ms`.
pub open spec fn resumed_ms<T, R>(started_ms: nat, events: Seq<TimedEvent<T, R>>) -> nat {
    if events.len() == 0 {
        started_ms
    } else {
        events.last().resumed_ms
    }
}

/// The deadline of the collecting under way after these events.
pub open spec fn deadline_ms<T, R>(started_ms: nat, events: Seq<TimedEvent<T, R>>) -> nat
    decreases events.len(),
{
    if events.len() == 0 {
        started_ms + BATCH_INSERT_TIMEOUT_MS as nat
    } else if ends_at(events, events.len() - 1) {
        events.last().resumed_ms + BATCH_INSERT_TIMEOUT_MS as nat
    } else {
        deadline_ms(started_ms, events.drop_last())
    }
}

/// The events come one after the other, and the timer keeps the deadline: no event comes
/// after it, since at the deadline, if nothing came before, the timeout does.
pub open spec fn timely<T, R>(started_ms: nat, events: Seq<TimedEvent<T, R>>) -> bool
    decreases events.len(),
{
    events.len() > 0 ==> {
        let before = events.drop_last();
        &&& timely(started_ms, before)
        &&& resumed_ms(started_ms, before) <= events.last().at_ms <= deadline_ms(started_ms, before)
        &&& events.last().at_ms <= events.last().resumed_ms
    }
}

/// Event `j` makes the flusher write the batch that was being collected when the request
/// of event `i` was taken: it is the first event from `i` on to end the collecting.
pub open spec fn writes<T, R>(events: Seq<TimedEvent<T, R>>, i: int, j: int) -> bool {
    &&& 0 <= i <= j < events.len()
    &&& ends_at(events, j)
    &&& forall|m: int| i <= m < j ==> !#[trigger] ends_at(events, m)
}

/// The flusher keeps and renews its deadline as `deadline_ms` says: it continues with the
/// same one exactly if the event does not end the collecting, and otherwise has one that
/// lies `BATCH_INSERT_TIMEOUT_MS` after it was done with the event.
pub proof fn law_deadline_follows_events<T, R>(
    started_ms: nat,
    events: Seq<TimedEvent<T, R>>,
    event: TimedEvent<T, R>,
)
    ensures
        ({
            let collected = buffered(untimed(events)) + received(event.event);
            deadline_ms(started_ms, events.push(event)) == if ends_batch(collected, event.event) {
                event.resumed_ms + BATCH_INSERT_TIMEOUT_MS as nat
            } else {
                deadline_ms(started_ms, events)
            }
        }),
{
    assert(events.push(event).drop_last() =~= events);
    assert(events.push(event).take(events.len() as int) =~= events);
}

/// The beginning of a timely run is timely.
proof fn lemma_timely_prefix<T, R>(started_ms: nat, events: Seq<TimedEvent<T, R>>, n: int)
    requires
        timely(started_ms, events),
        0 <= n <= events.len(),
    ensures
        timely(started_ms, events.take(n)),
    decreases events.len(),
{
    if n == events.len() {
        assert(events.take(n) =~= events);
    } else {
        lemma_timely_prefix(started_ms, events.drop_last(), n);
        assert(events.drop_last().take(n) =~= events.take(n));
    }
}

/// Collecting under way ends within the timeout.
proof fn lemma_deadline_is_near<T, R>(started_ms: nat, events: Seq<TimedEvent<T, R>>)
    requires
        timely(started_ms, events),
    ensures
        deadline_ms(started_ms, events) <= resumed_ms(started_ms, events)
            + BATCH_INSERT_TIMEOUT_MS,
    decreases events.len(),
{
    if events.len() > 0 {
        lemma_deadline_is_near(started_ms, events.drop_last());
    }
}

/// What is being collected, and which batches were written, after one event more.
proof fn lemma_last_event<T, R>(events: Seq<TimedEvent<T, R>>)
    requires
        events.len() > 0,
    ensures
        ({
            let n = events.len() - 1;
            let before = events.drop_last();
            &&& events.take(n) == before
            &&& untimed(events).drop_last() == untimed(before)
            &&& untimed(events).last() == events[n].event
            &&& ends_at(events, n) ==> flushed(untimed(events)) == if batch_at(events, n).len() > 0 {
                flushed(untimed(before)).push(batch_at(events, n))
            } else {
                flushed(untimed(before))
            }
            &&& !ends_at(events, n) ==> buffered(untimed(events)) == batch_at(events, n)
                && flushed(untimed(events)) == flushed(untimed(before))
        }),
{
    let n = events.len() - 1;
    assert(events.take(n) =~= events.drop_last());
    assert(untimed(events).drop_last() =~= untimed(events.drop_last()));
}

/// Event `j` looks the same in the beginning of a run as in the whole of it.
proof fn lemma_same_event<T, R>(events: Seq<TimedEvent<T, R>>, j: int)
    requires
        0 <= j < events.len() - 1,
    ensures
        batch_at(events.drop_last(), j) == batch_at(events, j),
        ends_at(events.drop_last(), j) == ends_at(events, j),
{
    assert(events.drop_last().take(j) =~= events.take(j));
}

/// A request that is taken while a batch is being collected has, by the deadline of that
/// collecting, been written, unless the deadline has yet to come. That is at its place in
/// the first batch that was written from then on. The deadline lies no more than
/// `BATCH_INSERT_TIMEOUT_MS` after the request was taken.
pub proof fn law_request_written_by_deadline<T, R>(
    started_ms: nat,
    events: Seq<TimedEvent<T, R>>,
    i: int,
)
    requires
        timely(started_ms, events),
        0 <= i < events.len(),
        events[i].event is Received,
    ensures
        ({
            let request = events[i].event->Received_0;
            let deadline = deadline_ms(started_ms, events.take(i));
            let place = buffered(untimed(events.take(i))).len() as int;
            &&& deadline <= events[i].at_ms + BATCH_INSERT_TIMEOUT_MS
            &&& {
                ||| exists|j: int| #[trigger]
                    writes(events, i, j) && {
                        &&& events[j].at_ms <= deadline
                        &&& place < batch_at(events, j).len()
                        &&& batch_at(events, j)[place] == request
                        &&& flushed(untimed(events)).contains(batch_at(events, j))
                    }
                ||| {
                    &&& deadline_ms(started_ms, events) == deadline
                    &&& place < buffered(untimed(events)).len()
                    &&& buffered(untimed(events))[place] == request
                    &&& forall|m: int| i <= m < events.len() ==> !#[trigger] ends_at(events, m)
                }
            }
        }),
    decreases events.len(),
{
    let request = events[i].event->Received_0;
    let deadline = deadline_ms(started_ms, events.take(i));
    let place = buffered(untimed(events.take(i))).len() as int;
    let n = events.len() - 1;
    let before = events.drop_last();
    lemma_last_event(events);
    if i == n {
        lemma_deadline_is_near(started_ms, before);
        assert(batch_at(events, n)[place] == request);
        if ends_at(events, n) {
            assert(writes(events, i, n));
            let batches = flushed(untimed(events));
            assert(batches[batches.len() - 1] == batch_at(events, n));
        }
    } else {
        assert(before.take(i) =~= events.take(i));
        law_request_written_by_deadline(started_ms, before, i);
        assert forall|m: int| 0 <= m < n implies batch_at(before, m) == batch_at(events, m)
            && #[trigger] ends_at(before, m) == ends_at(events, m) by {
            lemma_same_event(events, m);
        }
        if exists|j: int| #[trigger] writes(before, i, j) {
            let j = choose|j: int| #[trigger] writes(before, i, j);
            assert(ends_at(before, j));
            assert(writes(events, i, j)) by {
                assert forall|m: int| i <= m < j implies !#[trigger] ends_at(events, m) by {
                    assert(!ends_at(before, m));
                }
            }
            let k = flushed(untimed(before)).index_of(batch_at(events, j));
            assert(flushed(untimed(events))[k] == flushed(untimed(before))[k]);
        } else {
            assert forall|m: int| i <= m < n implies !#[trigger] ends_at(events, m) by {
                assert(!ends_at(before, m));
            }
            assert(batch_at(events, n)[place] == request);
            if ends_at(events, n) {
                assert(writes(events, i, n));
                let batches = flushed(untimed(events));
                assert(batches[batches.len() - 1] == batch_at(events, n));
            }
        }
    }
}

/// A request is written no later than `BATCH_INSERT_TIMEOUT_MS` after it was taken, however
/// few requests there are: once an event has come later than that, it has been.
pub proof fn law_request_written_within_timeout<T, R>(
    started_ms: nat,
    events: Seq<TimedEvent<T, R>>,
    i: int,
    later: int,
)
    requires
        timely(started_ms, events),
        0 <= i < later < events.len(),
        events[i].event is Received,
        events[later].at_ms > events[i].at_ms + BATCH_INSERT_TIMEOUT_MS,
    ensures
        exists|j: int| #[trigger]
            writes(events.take(later), i, j) && {
                let place = buffered(untimed(events.take(i))).len() as int;
                &&& events[j].at_ms <= events[i].at_ms + BATCH_INSERT_TIMEOUT_MS
                &&& place < batch_at(events, j).len()
                &&& batch_at(events, j)[place] == events[i].event->Received_0
            },
{
    let before = events.take(later);
    lemma_timely_prefix(started_ms, events, later);
    lemma_timely_prefix(started_ms, events, later + 1);
    assert(events.take(later + 1).drop_last() =~= before);
    assert(before.take(i) =~= events.take(i));
    law_request_written_by_deadline(started_ms, before, i);
    let j = choose|j: int| #[trigger] writes(before, i, j);
    assert(before.take(j) =~= events.take(j));
}

/// The reply to a request comes when the batch that holds it has been written. If that
/// takes no longer than the timeout, the reply comes within twice the timeout after the
/// request was taken; if it takes no time, within the timeout.
pub proof fn law_reply_within_two_timeouts<T, R>(
    started_ms: nat,
    events: Seq<TimedEvent<T, R>>,
    i: int,
    j: int,
)
    requires
        timely(started_ms, events),
        0 <= i < events.len(),
        events[i].event is Received,
        writes(events, i, j),
    ensures
        ({
            let taken_ms = events[i].at_ms;
            let write_ms = events[j].resumed_ms - events[j].at_ms;
            &&& events[j].resumed_ms <= taken_ms + BATCH_INSERT_TIMEOUT_MS + write_ms
            &&& write_ms <= BATCH_INSERT_TIMEOUT_MS ==> events[j].resumed_ms <= taken_ms + 2
                * BATCH_INSERT_TIMEOUT_MS
        }),
{
    law_request_written_by_deadline(started_ms, events, i);
    assert(ends_at(events, j));
    let k = choose|k: int| #[trigger]
        writes(events, i, k) && events[k].at_ms <= deadline_ms(started_ms, events.take(i));
    assert(k == j) by {
        if k < j {
            assert(!ends_at(events, k));
        }
        if j < k {
            assert(!ends_at(events, j));
        }
    }
}

/// The requester is told of an insert exactly what the database said of it: the stored
/// transaction, or its message as a database error.
pub proof fn law_result_is_passed_on<T>(result: Result<T, String>)
    ensures
        result is Ok <==> mapped_result(result) is Ok,
        result matches Ok(t) ==> mapped_result(result)->Ok_0 == t,
        result matches Err(m) ==> mapped_result(result)->Err_0 matches AppError::DatabaseError(
            text,
        ) && text == m,
{
}

/// A request brings in itself, and the deadline and the closing bring in nothing. These two
/// end every collecting; a request ends it exactly when it is the one that fills the batch.
pub proof fn law_events<T, R>(
    waiting: Seq<BatchInsertRequest<T, R>>,
    request: BatchInsertRequest<T, R>,
)
    ensures
        received(BatchEvent::Received(request)).len() == 1,
        received(BatchEvent::Received(request))[0] == request,
        received(BatchEvent::<T, R>::TimedOut).len() == 0,
        received(BatchEvent::<T, R>::Closed).len() == 0,
        ends_batch(waiting, BatchEvent::TimedOut),
        ends_batch(waiting, BatchEvent::Closed),
        ends_batch(waiting.push(request), BatchEvent::Received(request)) <==> waiting.len() + 1
            >= BATCH_INSERT_SIZE,
{
}

/// What follows an event, whatever was being collected. The closing of the channel is the
/// end: neither of the actions that it leads to begins another collecting. An event that
/// does not end the collecting leaves the deadline as it is. Any other leads to a deadline
/// that lies `BATCH_INSERT_TIMEOUT_MS` after the flusher was done with it.
pub proof fn law_collecting_follows_event<T, R>(
    started_ms: nat,
    events: Seq<TimedEvent<T, R>>,
    event: TimedEvent<T, R>,
    action: BatchAction<T, R>,
)
    requires
        match event.event {
            BatchEvent::Received(_) => if buffered(untimed(events)).len() + 1
                < BATCH_INSERT_SIZE {
                action is Wait
            } else {
                action is Flush
            },
            BatchEvent::TimedOut => action is Flush || action is Restart,
            BatchEvent::Closed => action is FlushAndStop || action is Stop,
        },
    ensures
        event.event is Closed <==> action.then_collecting() is Over,
        event.event is TimedOut ==> action.then_collecting() is BeginsAgain,
        ({
            let before = deadline_ms(started_ms, events);
            let after = deadline_ms(started_ms, events.push(event));
            match action.then_collecting() {
                Collecting::Continues => {
                    &&& after == before
                    &&& event.event is Received
                    &&& buffered(untimed(events.push(event))).len() == buffered(
                        untimed(events),
                    ).len() + 1
                },
                Collecting::BeginsAgain => {
                    &&& after == event.resumed_ms + BATCH_INSERT_TIMEOUT_MS
                    &&& buffered(untimed(events.push(event))).len() == 0
                },
                Collecting::Over => buffered(untimed(events.push(event))).len() == 0,
            }
        }),
{
    law_deadline_follows_events(started_ms, events, event);
    lemma_last_event(events.push(event));
    assert(events.push(event).drop_last() =~= events);
}

} // verus!
