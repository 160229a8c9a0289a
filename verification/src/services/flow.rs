//! The steps of the three database procedures: completing a transaction, requeueing a
//! DLQ entry, and retrying a DLQ entry.
//!
//! A procedure is a `Flow`: it names the request that it waits on, and moves on when it
//! is handed the reply. A failed statement ends it with that failure.
use super::store::Statement;
use crate::time::Timestamp;
use vstd::prelude::*;

verus! {

/// The event that is sent out when an entry has used up its retries.
pub const DLQ_EXHAUSTED_EVENT: &'static str = "transaction.dlq_exhausted";

/// What is told of an entry that has used up its retries. `T` is the type of its texts:
/// `String` in a value at run time, `Seq<char>` in the model.
#[derive(Debug)]
pub struct DlqExhausted<T> {
    pub dlq_id: u128,
    pub transaction_id: u128,
    pub error_reason: T,
    pub retry_count: i32,
}

/// A value in an event's payload.
#[derive(Debug)]
pub enum PayloadValue<T> {
    Id(u128),
    Text(T),
    Number(i32),
}

/// A named value in an event's payload.
#[derive(Debug)]
pub struct PayloadField {
    pub key: &'static str,
    pub value: PayloadValue<String>,
}

impl View for PayloadField {
    type V = (Seq<char>, PayloadValue<Seq<char>>);

    open spec fn view(&self) -> (Seq<char>, PayloadValue<Seq<char>>) {
        (
            self.key@,
            match self.value {
                PayloadValue::Id(id) => PayloadValue::Id(id),
                PayloadValue::Text(text) => PayloadValue::Text(text@),
                PayloadValue::Number(number) => PayloadValue::Number(number),
            },
        )
    }
}

impl View for DlqExhausted<String> {
    type V = DlqExhausted<Seq<char>>;

    open spec fn view(&self) -> DlqExhausted<Seq<char>> {
        DlqExhausted {
            dlq_id: self.dlq_id,
            transaction_id: self.transaction_id,
            error_reason: self.error_reason@,
            retry_count: self.retry_count,
        }
    }
}

impl DlqExhausted<Seq<char>> {
    /// The payload of the event: an object with these members.
    pub open spec fn payload_fields(self) -> Seq<(Seq<char>, PayloadValue<Seq<char>>)> {
        seq![
            ("dlq_id"@, PayloadValue::Id(self.dlq_id)),
            ("transaction_id"@, PayloadValue::Id(self.transaction_id)),
            ("error_reason"@, PayloadValue::Text(self.error_reason)),
            ("retry_count"@, PayloadValue::Number(self.retry_count)),
        ]
    }
}

impl DlqExhausted<String> {
    /// The event to enqueue and the transaction for which it is enqueued.
    pub fn event(&self) -> (r: (&'static str, u128))
        ensures
            r.0@ == "transaction.dlq_exhausted"@,
            r.0@ == DLQ_EXHAUSTED_EVENT@,
            r.1 == self.transaction_id,
    {
        (DLQ_EXHAUSTED_EVENT, self.transaction_id)
    }

    /// The payload of the event.
    pub fn payload(&self) -> (r: Vec<PayloadField>)
        ensures
            r@.map_values(|f: PayloadField| f@) == self@.payload_fields(),
            r.len() == 4,
            r@[0].key@ == "dlq_id"@,
            r@[0].value matches PayloadValue::Id(id) && id == self.dlq_id,
            r@[1].key@ == "transaction_id"@,
            r@[1].value matches PayloadValue::Id(id) && id == self.transaction_id,
            r@[2].key@ == "error_reason"@,
            r@[2].value matches PayloadValue::Text(text) && text@ == self.error_reason@,
            r@[3].key@ == "retry_count"@,
            r@[3].value matches PayloadValue::Number(n) && n == self.retry_count,
    {
        let mut r: Vec<PayloadField> = Vec::new();
        r.push(PayloadField { key: "dlq_id", value: PayloadValue::Id(self.dlq_id) });
        r.push(PayloadField { key: "transaction_id", value: PayloadValue::Id(self.transaction_id) });
        r.push(
            PayloadField {
                key: "error_reason",
                value: PayloadValue::Text(self.error_reason.clone()),
            },
        );
        r.push(PayloadField { key: "retry_count", value: PayloadValue::Number(self.retry_count) });
        assert(r@.map_values(|f: PayloadField| f@) =~= self@.payload_fields());
        r
    }
}

impl Clone for DlqExhausted<String> {
    fn clone(&self) -> (r: Self)
        ensures
            r@ == self@,
            r.dlq_id == self.dlq_id,
            r.transaction_id == self.transaction_id,
            r.error_reason@ == self.error_reason@,
            r.retry_count == self.retry_count,
    {
        DlqExhausted {
            dlq_id: self.dlq_id,
            transaction_id: self.transaction_id,
            error_reason: self.error_reason.clone(),
            retry_count: self.retry_count,
        }
    }
}

/// What a flow asks for.
#[derive(Debug)]
pub enum Request<T> {
    /// Run a statement.
    Run(Statement),
    /// Drop what is cached for an asset.
    InvalidateCaches { asset_code: T },
    /// Enqueue the `DLQ_EXHAUSTED_EVENT` for the transaction.
    Notify { notice: DlqExhausted<T> },
}

/// How a request went.
#[derive(Debug)]
pub enum Reply<T, E> {
    /// The request failed.
    Failed(E),
    /// The request went through.
    Done,
    /// The asset code that was read.
    AssetCode(T),
    /// The transaction that was read.
    TransactionId(u128),
}

/// A procedure under way: the variant names the request that is waited on, and the
/// fields are what that request and the later ones need.
#[derive(Debug)]
pub enum Flow<T> {
    /// Completing: read the asset code.
    FetchAsset { tx_id: u128 },
    /// Completing: set the status.
    Complete { tx_id: u128, asset_code: T },
    /// Requeueing: read which transaction the entry is about.
    FetchTransaction { dlq_id: u128 },
    /// Requeueing: read the asset code.
    FetchEntryAsset { dlq_id: u128, tx_id: u128 },
    /// Requeueing: set the status.
    Requeue { dlq_id: u128, tx_id: u128, asset_code: T },
    /// Requeueing: remove the entry.
    Delete { dlq_id: u128, asset_code: T },
    /// Retrying: set the status. `next` is when the retry after this one is due, if that
    /// instant is representable.
    Retry {
        dlq_id: u128,
        tx_id: u128,
        asset_code: T,
        retry_count: i32,
        last_retry_at: Timestamp,
        next: Option<Timestamp>,
    },
    /// Retrying: record the retry.
    Reschedule {
        dlq_id: u128,
        asset_code: T,
        retry_count: i32,
        last_retry_at: Timestamp,
        next_retry_at: Timestamp,
    },
    /// Giving up: mark the entry. `notice` is what is then sent out, if anything.
    GiveUp { dlq_id: u128, last_retry_at: Timestamp, notice: Option<DlqExhausted<T>> },
    /// Giving up: send the notice.
    Notify { event: DlqExhausted<T> },
    /// Last step of the procedures that change a transaction: drop what is cached.
    Invalidate { asset_code: T },
}

/// Where a reply leaves a flow.
#[derive(Debug)]
pub enum Step<T, E> {
    /// It goes on.
    Continue(Flow<T>),
    /// It is over.
    Finished(Result<(), E>),
    /// It cannot go on: there is no instant at which the next retry would be due.
    Unschedulable,
}

impl View for Request<String> {
    type V = Request<Seq<char>>;

    open spec fn view(&self) -> Request<Seq<char>> {
        match self {
            Request::Run(statement) => Request::Run(*statement),
            Request::InvalidateCaches { asset_code } => Request::InvalidateCaches {
                asset_code: asset_code@,
            },
            Request::Notify { notice } => Request::Notify { notice: notice@ },
        }
    }
}

impl<E> View for Reply<String, E> {
    type V = Reply<Seq<char>, E>;

    open spec fn view(&self) -> Reply<Seq<char>, E> {
        match self {
            Reply::Failed(e) => Reply::Failed(*e),
            Reply::Done => Reply::Done,
            Reply::AssetCode(asset_code) => Reply::AssetCode(asset_code@),
            Reply::TransactionId(tx_id) => Reply::TransactionId(*tx_id),
        }
    }
}

impl View for Flow<String> {
    type V = Flow<Seq<char>>;

    open spec fn view(&self) -> Flow<Seq<char>> {
        match *self {
            Flow::FetchAsset { tx_id } => Flow::FetchAsset { tx_id },
            Flow::Complete { tx_id, asset_code } => Flow::Complete {
                tx_id,
                asset_code: asset_code@,
            },
            Flow::FetchTransaction { dlq_id } => Flow::FetchTransaction { dlq_id },
            Flow::FetchEntryAsset { dlq_id, tx_id } => Flow::FetchEntryAsset { dlq_id, tx_id },
            Flow::Requeue { dlq_id, tx_id, asset_code } => Flow::Requeue {
                dlq_id,
                tx_id,
                asset_code: asset_code@,
            },
            Flow::Delete { dlq_id, asset_code } => Flow::Delete { dlq_id, asset_code: asset_code@ },
            Flow::Retry { dlq_id, tx_id, asset_code, retry_count, last_retry_at, next } =>
                Flow::Retry {
                dlq_id,
                tx_id,
                asset_code: asset_code@,
                retry_count,
                last_retry_at,
                next,
            },
            Flow::Reschedule { dlq_id, asset_code, retry_count, last_retry_at, next_retry_at } =>
                Flow::Reschedule {
                dlq_id,
                asset_code: asset_code@,
                retry_count,
                last_retry_at,
                next_retry_at,
            },
            Flow::GiveUp { dlq_id, last_retry_at, notice } => Flow::GiveUp {
                dlq_id,
                last_retry_at,
                notice: match notice {
                    Some(n) => Some(n@),
                    None => None,
                },
            },
            Flow::Notify { event } => Flow::Notify { event: event@ },
            Flow::Invalidate { asset_code } => Flow::Invalidate { asset_code: asset_code@ },
        }
    }
}

impl<E> View for Step<String, E> {
    type V = Step<Seq<char>, E>;

    open spec fn view(&self) -> Step<Seq<char>, E> {
        match self {
            Step::Continue(flow) => Step::Continue(flow@),
            Step::Finished(result) => Step::Finished(*result),
            Step::Unschedulable => Step::Unschedulable,
        }
    }
}

impl Flow<Seq<char>> {
    /// The request that the flow waits on.
    pub open spec fn pending(self) -> Request<Seq<char>> {
        match self {
            Flow::FetchAsset { tx_id } => Request::Run(Statement::SelectAssetCode { tx_id }),
            Flow::Complete { tx_id, .. } => Request::Run(Statement::CompleteTransaction { tx_id }),
            Flow::FetchTransaction { dlq_id } => Request::Run(
                Statement::SelectTransactionId { dlq_id },
            ),
            Flow::FetchEntryAsset { tx_id, .. } => Request::Run(
                Statement::SelectAssetCode { tx_id },
            ),
            Flow::Requeue { tx_id, .. } => Request::Run(Statement::RequeueTransaction { tx_id }),
            Flow::Delete { dlq_id, .. } => Request::Run(Statement::DeleteEntry { dlq_id }),
            Flow::Retry { tx_id, .. } => Request::Run(Statement::RequeueTransaction { tx_id }),
            Flow::Reschedule { dlq_id, retry_count, last_retry_at, next_retry_at, .. } =>
                Request::Run(
                Statement::RescheduleEntry { dlq_id, retry_count, last_retry_at, next_retry_at },
            ),
            Flow::GiveUp { dlq_id, last_retry_at, .. } => Request::Run(
                Statement::FailEntry { dlq_id, last_retry_at },
            ),
            Flow::Notify { event } => Request::Notify { notice: event },
            Flow::Invalidate { asset_code } => Request::InvalidateCaches { asset_code },
        }
    }

    /// Where a reply leaves the flow. Failures end it, but for those of a notice or a
    /// cache, which nothing depends on. A reply of another kind than the request asks
    /// for leaves the flow waiting.
    pub open spec fn next<E>(self, reply: Reply<Seq<char>, E>) -> Step<Seq<char>, E> {
        match (self, reply) {
            (Flow::Notify { .. }, _) => Step::Finished(Ok(())),
            (Flow::Invalidate { .. }, _) => Step::Finished(Ok(())),
            (_, Reply::Failed(e)) => Step::Finished(Err(e)),
            (Flow::FetchAsset { tx_id }, Reply::AssetCode(asset_code)) => Step::Continue(
                Flow::Complete { tx_id, asset_code },
            ),
            (Flow::Complete { asset_code, .. }, Reply::Done) => Step::Continue(
                Flow::Invalidate { asset_code },
            ),
            (Flow::FetchTransaction { dlq_id }, Reply::TransactionId(tx_id)) => Step::Continue(
                Flow::FetchEntryAsset { dlq_id, tx_id },
            ),
            (Flow::FetchEntryAsset { dlq_id, tx_id }, Reply::AssetCode(asset_code)) =>
                Step::Continue(Flow::Requeue { dlq_id, tx_id, asset_code }),
            (Flow::Requeue { dlq_id, asset_code, .. }, Reply::Done) => Step::Continue(
                Flow::Delete { dlq_id, asset_code },
            ),
            (Flow::Delete { asset_code, .. }, Reply::Done) => Step::Continue(
                Flow::Invalidate { asset_code },
            ),
            (
                Flow::Retry {
                    dlq_id,
                    asset_code,
                    retry_count,
                    last_retry_at,
                    next: Some(next_retry_at),
                    ..
                },
                Reply::Done,
            ) => Step::Continue(
                Flow::Reschedule { dlq_id, asset_code, retry_count, last_retry_at, next_retry_at },
            ),
            (Flow::Retry { next: None, .. }, Reply::Done) => Step::Unschedulable,
            (Flow::Reschedule { asset_code, .. }, Reply::Done) => Step::Continue(
                Flow::Invalidate { asset_code },
            ),
            (Flow::GiveUp { notice: Some(notice), .. }, Reply::Done) => Step::Continue(
                Flow::Notify { event: notice },
            ),
            (Flow::GiveUp { notice: None, .. }, Reply::Done) => Step::Finished(Ok(())),
            _ => Step::Continue(self),
        }
    }
}

impl Flow<String> {
    /// The request that the flow waits on.
    pub fn request(&self) -> (r: Request<String>)
        ensures
            r@ == self@.pending(),
            match *self {
                Flow::FetchAsset { tx_id } => r == Request::<String>::Run(
                    Statement::SelectAssetCode { tx_id },
                ),
                Flow::Complete { tx_id, .. } => r == Request::<String>::Run(
                    Statement::CompleteTransaction { tx_id },
                ),
                Flow::FetchTransaction { dlq_id } => r == Request::<String>::Run(
                    Statement::SelectTransactionId { dlq_id },
                ),
                Flow::FetchEntryAsset { tx_id, .. } => r == Request::<String>::Run(
                    Statement::SelectAssetCode { tx_id },
                ),
                Flow::Requeue { tx_id, .. } => r == Request::<String>::Run(
                    Statement::RequeueTransaction { tx_id },
                ),
                Flow::Delete { dlq_id, .. } => r == Request::<String>::Run(
                    Statement::DeleteEntry { dlq_id },
                ),
                Flow::Retry { tx_id, .. } => r == Request::<String>::Run(
                    Statement::RequeueTransaction { tx_id },
                ),
                Flow::Reschedule { dlq_id, retry_count, last_retry_at, next_retry_at, .. } => r
                    == Request::<String>::Run(
                    Statement::RescheduleEntry { dlq_id, retry_count, last_retry_at, next_retry_at },
                ),
                Flow::GiveUp { dlq_id, last_retry_at, .. } => r == Request::<String>::Run(
                    Statement::FailEntry { dlq_id, last_retry_at },
                ),
                Flow::Notify { event } => {
                    &&& r matches Request::Notify { notice }
                    &&& notice.dlq_id == event.dlq_id
                    &&& notice.transaction_id == event.transaction_id
                    &&& notice.error_reason@ == event.error_reason@
                    &&& notice.retry_count == event.retry_count
                },
                Flow::Invalidate { asset_code } => r matches Request::InvalidateCaches {
                    asset_code: dropped,
                } && dropped@ == asset_code@,
            },
    {
        match self {
            Flow::FetchAsset { tx_id } => Request::Run(
                Statement::SelectAssetCode { tx_id: *tx_id },
            ),
            Flow::Complete { tx_id, .. } => Request::Run(
                Statement::CompleteTransaction { tx_id: *tx_id },
            ),
            Flow::FetchTransaction { dlq_id } => Request::Run(
                Statement::SelectTransactionId { dlq_id: *dlq_id },
            ),
            Flow::FetchEntryAsset { tx_id, .. } => Request::Run(
                Statement::SelectAssetCode { tx_id: *tx_id },
            ),
            Flow::Requeue { tx_id, .. } => Request::Run(
                Statement::RequeueTransaction { tx_id: *tx_id },
            ),
            Flow::Delete { dlq_id, .. } => Request::Run(Statement::DeleteEntry { dlq_id: *dlq_id }),
            Flow::Retry { tx_id, .. } => Request::Run(
                Statement::RequeueTransaction { tx_id: *tx_id },
            ),
            Flow::Reschedule { dlq_id, retry_count, last_retry_at, next_retry_at, .. } =>
                Request::Run(
                Statement::RescheduleEntry {
                    dlq_id: *dlq_id,
                    retry_count: *retry_count,
                    last_retry_at: *last_retry_at,
                    next_retry_at: *next_retry_at,
                },
            ),
            Flow::GiveUp { dlq_id, last_retry_at, .. } => Request::Run(
                Statement::FailEntry { dlq_id: *dlq_id, last_retry_at: *last_retry_at },
            ),
            Flow::Notify { event } => Request::Notify { notice: event.clone() },
            Flow::Invalidate { asset_code } => Request::InvalidateCaches {
                asset_code: asset_code.clone(),
            },
        }
    }

    /// Moves on with the reply to the request.
    pub fn step<E>(self, reply: Reply<String, E>) -> (r: Step<String, E>)
        ensures
            r@ == self@.next(reply@),
    {
        match (self, reply) {
            (Flow::Notify { .. }, _) => Step::Finished(Ok(())),
            (Flow::Invalidate { .. }, _) => Step::Finished(Ok(())),
            (_, Reply::Failed(e)) => Step::Finished(Err(e)),
            (Flow::FetchAsset { tx_id }, Reply::AssetCode(asset_code)) => Step::Continue(
                Flow::Complete { tx_id, asset_code },
            ),
            (Flow::Complete { asset_code, .. }, Reply::Done) => Step::Continue(
                Flow::Invalidate { asset_code },
            ),
            (Flow::FetchTransaction { dlq_id }, Reply::TransactionId(tx_id)) => Step::Continue(
                Flow::FetchEntryAsset { dlq_id, tx_id },
            ),
            (Flow::FetchEntryAsset { dlq_id, tx_id }, Reply::AssetCode(asset_code)) =>
                Step::Continue(Flow::Requeue { dlq_id, tx_id, asset_code }),
            (Flow::Requeue { dlq_id, asset_code, .. }, Reply::Done) => Step::Continue(
                Flow::Delete { dlq_id, asset_code },
            ),
            (Flow::Delete { asset_code, .. }, Reply::Done) => Step::Continue(
                Flow::Invalidate { asset_code },
            ),
            (
                Flow::Retry {
                    dlq_id,
                    asset_code,
                    retry_count,
                    last_retry_at,
                    next: Some(next_retry_at),
                    ..
                },
                Reply::Done,
            ) => Step::Continue(
                Flow::Reschedule { dlq_id, asset_code, retry_count, last_retry_at, next_retry_at },
            ),
            (Flow::Retry { next: None, .. }, Reply::Done) => Step::Unschedulable,
            (Flow::Reschedule { asset_code, .. }, Reply::Done) => Step::Continue(
                Flow::Invalidate { asset_code },
            ),
            (Flow::GiveUp { notice: Some(notice), .. }, Reply::Done) => Step::Continue(
                Flow::Notify { event: notice },
            ),
            (Flow::GiveUp { notice: None, .. }, Reply::Done) => Step::Finished(Ok(())),
            (flow, _) => Step::Continue(flow),
        }
    }
}

/// The model of a value holds what the value holds: the same numbers and instants, and the
/// characters of the same texts.
pub proof fn law_models_are_faithful<E>(
    notice: DlqExhausted<String>,
    field: PayloadField,
    statement: Statement,
    text: String,
    id: u128,
    retry_count: i32,
    at: Timestamp,
    next: Timestamp,
    e: E,
)
    ensures
        notice@ == (DlqExhausted {
            dlq_id: notice.dlq_id,
            transaction_id: notice.transaction_id,
            error_reason: notice.error_reason@,
            retry_count: notice.retry_count,
        }),
        field@.0 == field.key@,
        field.value matches PayloadValue::Id(n) ==> field@.1 == PayloadValue::<Seq<char>>::Id(n),
        field.value matches PayloadValue::Text(t) ==> field@.1 == PayloadValue::Text(t@),
        field.value matches PayloadValue::Number(n) ==> field@.1
            == PayloadValue::<Seq<char>>::Number(n),
        Request::<String>::Run(statement)@ == Request::<Seq<char>>::Run(statement),
        (Request::InvalidateCaches { asset_code: text })@ == (Request::InvalidateCaches {
            asset_code: text@,
        }),
        (Request::Notify { notice })@ == (Request::Notify { notice: notice@ }),
        Reply::<String, E>::Done@ == Reply::<Seq<char>, E>::Done,
        Reply::<String, E>::Failed(e)@ == Reply::<Seq<char>, E>::Failed(e),
        Reply::<String, E>::AssetCode(text)@ == Reply::<Seq<char>, E>::AssetCode(text@),
        Reply::<String, E>::TransactionId(id)@ == Reply::<Seq<char>, E>::TransactionId(id),
        Step::<String, E>::Finished(Ok(()))@ == Step::<Seq<char>, E>::Finished(Ok(())),
        Step::<String, E>::Finished(Err(e))@ == Step::<Seq<char>, E>::Finished(Err(e)),
        Step::<String, E>::Unschedulable@ == Step::<Seq<char>, E>::Unschedulable,
        Step::<String, E>::Continue(Flow::FetchAsset { tx_id: id })@ == Step::<
            Seq<char>,
            E,
        >::Continue(Flow::FetchAsset { tx_id: id }),
        (Flow::Complete { tx_id: id, asset_code: text })@ == (Flow::Complete {
            tx_id: id,
            asset_code: text@,
        }),
        (Flow::<String>::FetchEntryAsset { dlq_id: id, tx_id: notice.transaction_id })@ == (
        Flow::<Seq<char>>::FetchEntryAsset { dlq_id: id, tx_id: notice.transaction_id }),
        (Flow::Requeue { dlq_id: id, tx_id: notice.transaction_id, asset_code: text })@ == (
        Flow::Requeue { dlq_id: id, tx_id: notice.transaction_id, asset_code: text@ }),
        (Flow::Delete { dlq_id: id, asset_code: text })@ == (Flow::Delete {
            dlq_id: id,
            asset_code: text@,
        }),
        (Flow::Reschedule {
            dlq_id: id,
            asset_code: text,
            retry_count,
            last_retry_at: at,
            next_retry_at: next,
        })@ == (Flow::Reschedule {
            dlq_id: id,
            asset_code: text@,
            retry_count,
            last_retry_at: at,
            next_retry_at: next,
        }),
        (Flow::Notify { event: notice })@ == (Flow::Notify { event: notice@ }),
        (Flow::Invalidate { asset_code: text })@ == (Flow::Invalidate { asset_code: text@ }),
        (Flow::<String>::FetchAsset { tx_id: id })@ == (Flow::<Seq<char>>::FetchAsset { tx_id: id }),
        (Flow::<String>::FetchTransaction { dlq_id: id })@ == (
        Flow::<Seq<char>>::FetchTransaction { dlq_id: id }),
        (Flow::Retry {
            dlq_id: id,
            tx_id: notice.transaction_id,
            asset_code: text,
            retry_count,
            last_retry_at: at,
            next: Some(next),
        })@ == (Flow::Retry {
            dlq_id: id,
            tx_id: notice.transaction_id,
            asset_code: text@,
            retry_count,
            last_retry_at: at,
            next: Some(next),
        }),
        (Flow::GiveUp { dlq_id: id, last_retry_at: at, notice: Some(notice) })@ == (Flow::GiveUp {
            dlq_id: id,
            last_retry_at: at,
            notice: Some(notice@),
        }),
        (Flow::<String>::GiveUp { dlq_id: id, last_retry_at: at, notice: None })@ == (
        Flow::<Seq<char>>::GiveUp { dlq_id: id, last_retry_at: at, notice: None }),
{
}

/// A payload has one member for each of four keys. Looked up by its key, each is what the
/// notice holds.
pub proof fn law_payload_members(notice: DlqExhausted<Seq<char>>, i: int, j: int)
    requires
        0 <= i < notice.payload_fields().len(),
        0 <= j < notice.payload_fields().len(),
    ensures
        notice.payload_fields().len() == 4,
        i != j ==> notice.payload_fields()[i].0 != notice.payload_fields()[j].0,
        notice.payload_fields().contains(("dlq_id"@, PayloadValue::Id(notice.dlq_id))),
        notice.payload_fields().contains(
            ("transaction_id"@, PayloadValue::Id(notice.transaction_id)),
        ),
        notice.payload_fields().contains(
            ("error_reason"@, PayloadValue::Text(notice.error_reason)),
        ),
        notice.payload_fields().contains(
            ("retry_count"@, PayloadValue::Number(notice.retry_count)),
        ),
{
    reveal_strlit("dlq_id");
    reveal_strlit("transaction_id");
    reveal_strlit("error_reason");
    reveal_strlit("retry_count");
    let fields = notice.payload_fields();
    assert(fields[0].0.len() == 6 && fields[1].0.len() == 14);
    assert(fields[2].0.len() == 12 && fields[3].0.len() == 11);
    assert(fields[0] == ("dlq_id"@, PayloadValue::<Seq<char>>::Id(notice.dlq_id)));
    assert(fields[1] == ("transaction_id"@, PayloadValue::<Seq<char>>::Id(notice.transaction_id)));
    assert(fields[2] == ("error_reason"@, PayloadValue::Text(notice.error_reason)));
    assert(fields[3] == ("retry_count"@, PayloadValue::<Seq<char>>::Number(notice.retry_count)));
}

/// Two notices have the same payload only if they are the same.
pub proof fn law_payload_tells_notices_apart(
    a: DlqExhausted<Seq<char>>,
    b: DlqExhausted<Seq<char>>,
)
    requires
        a.payload_fields() == b.payload_fields(),
    ensures
        a == b,
{
    let (x, y) = (a.payload_fields(), b.payload_fields());
    assert(x[0] == y[0] && x[1] == y[1] && x[2] == y[2] && x[3] == y[3]);
}

/// A flow moves on only with the kind of reply that its request calls for: a code or an
/// identifier where one was asked for, and otherwise the news that the statement went
/// through. With any other reply it goes on waiting for the same.
pub proof fn law_flow_waits_for_its_reply<E>(
    flow: Flow<Seq<char>>,
    asset_code: Seq<char>,
    tx_id: u128,
)
    requires
        flow.pending() is Run,
    ensures
        ({
            let statement = flow.pending()->Run_0;
            let wants_code = statement is SelectAssetCode;
            let wants_id = statement is SelectTransactionId;
            let waits = Step::<Seq<char>, E>::Continue(flow);
            &&& !wants_code ==> flow.next::<E>(Reply::AssetCode(asset_code)) == waits
            &&& !wants_id ==> flow.next::<E>(Reply::TransactionId(tx_id)) == waits
            &&& wants_code || wants_id <==> flow.next::<E>(Reply::Done) == waits
        }),
{
}

/// A statement that fails ends the flow with its error, whichever it is. A notice or a
/// dropped cache ends it with success, whatever comes back.
pub proof fn law_flow_ends<E>(flow: Flow<Seq<char>>, e: E, reply: Reply<Seq<char>, E>)
    ensures
        flow.pending() is Run ==> flow.next(Reply::Failed(e)) == Step::<Seq<char>, E>::Finished(
            Err(e),
        ),
        !(flow.pending() is Run) ==> flow.next(reply) == Step::<Seq<char>, E>::Finished(Ok(())),
{
}

} // verus!
