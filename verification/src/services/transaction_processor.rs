//! The transaction processor: which procedure it runs for a transaction or a DLQ entry,
//! and when a failed entry is retried.
use super::flow::{DlqExhausted, Flow};
use super::store::{Statement, TransactionDlq};
use crate::time::{add_seconds, secs_in_range, Timestamp, MAX_SECS, MIN_SECS, NANOS_PER_SEC};
use vstd::arithmetic::power2::{
    lemma2_to64, lemma2_to64_rest, lemma_pow2_pos, lemma_pow2_strictly_increases, pow2,
};
use vstd::bits::{lemma_u64_pow2_no_overflow, lemma_u64_shl_is_mul};
use vstd::prelude::*;

verus! {

/// The exponent that the backoff falls back to where a larger one would lead to an instant
/// that is not representable.
pub const MAX_BACKOFF_EXPONENT: i32 = 30;

/// `base * 2^retry_count`.
pub open spec fn full_delay(retry_count: int, base_delay_secs: int) -> int {
    base_delay_secs * pow2(retry_count as nat)
}

/// Seconds to wait after the given number of retries: `base * 2^retry_count`. Beyond the
/// exponent `MAX_BACKOFF_EXPONENT`, and only where that delay leads to an instant that is
/// not representable, the exponent is `MAX_BACKOFF_EXPONENT`.
pub open spec fn backoff_delay(
    last_retry_at: Timestamp,
    retry_count: int,
    base_delay_secs: int,
) -> int {
    let full = full_delay(retry_count, base_delay_secs);
    if retry_count <= MAX_BACKOFF_EXPONENT || secs_in_range(last_retry_at.shifted_secs(full)) {
        full
    } else {
        full_delay(MAX_BACKOFF_EXPONENT as int, base_delay_secs)
    }
}

/// The inputs for which the next retry is representable.
pub open spec fn retry_in_range(
    last_retry_at: Timestamp,
    retry_count: int,
    base_delay_secs: int,
) -> bool {
    &&& retry_count >= 0
    &&& last_retry_at.valid()
    &&& secs_in_range(
        last_retry_at.shifted_secs(backoff_delay(last_retry_at, retry_count, base_delay_secs)),
    )
}

/// The instant of the next retry.
pub open spec fn retry_time(
    last_retry_at: Timestamp,
    retry_count: int,
    base_delay_secs: int,
) -> Timestamp {
    let delay = backoff_delay(last_retry_at, retry_count, base_delay_secs);
    Timestamp {
        secs: last_retry_at.shifted_secs(delay) as i64,
        nanos: last_retry_at.shifted_nanos(delay) as u32,
    }
}

/// The instant of the next retry, if it is representable.
pub open spec fn scheduled(
    last_retry_at: Timestamp,
    retry_count: int,
    base_delay_secs: int,
) -> Option<Timestamp> {
    if retry_in_range(last_retry_at, retry_count, base_delay_secs) {
        Some(retry_time(last_retry_at, retry_count, base_delay_secs))
    } else {
        None
    }
}

/// Whether the instant that lies `delay` seconds away is representable.
fn reaches(t: &Timestamp, delay: i128) -> (r: bool)
    requires
        -0x4000_0000_0000_0000_0000_0000_0000_0000 <= delay
            <= 0x4000_0000_0000_0000_0000_0000_0000_0000,
    ensures
        r == secs_in_range(t.shifted_secs(delay as int)),
{
    let leap: i128 = if t.nanos >= NANOS_PER_SEC && delay < 0 {
        1
    } else {
        0
    };
    let secs: i128 = t.secs as i128 + leap + delay;
    MIN_SECS as i128 <= secs && secs <= MAX_SECS as i128
}

/// `base * 2^exponent`.
fn scaled(exponent: u64, base_delay_secs: i64) -> (r: i128)
    requires
        exponent < 64,
    ensures
        r == full_delay(exponent as int, base_delay_secs as int),
        -0x4000_0000_0000_0000_0000_0000_0000_0000 <= r
            <= 0x4000_0000_0000_0000_0000_0000_0000_0000,
{
    proof {
        lemma_u64_pow2_no_overflow(exponent as nat);
        lemma_u64_shl_is_mul(1, exponent);
        lemma2_to64();
        lemma2_to64_rest();
        if exponent < 63 {
            lemma_pow2_strictly_increases(exponent as nat, 63);
        }
    }
    let factor: u64 = 1u64 << exponent;
    assert(-0x4000_0000_0000_0000_0000_0000_0000_0000 <= base_delay_secs * factor
        <= 0x4000_0000_0000_0000_0000_0000_0000_0000) by (nonlinear_arith)
        requires
            i64::MIN <= base_delay_secs <= i64::MAX,
            0 <= factor <= 0x8000_0000_0000_0000,
    ;
    base_delay_secs as i128 * factor as i128
}

/// The seconds to wait after the given number of retries.
fn delay_secs(last_retry_at: &Timestamp, retry_count: i32, base_delay_secs: i64) -> (r: i128)
    requires
        retry_count >= 0,
        last_retry_at.valid(),
    ensures
        r == backoff_delay(*last_retry_at, retry_count as int, base_delay_secs as int),
        -0x4000_0000_0000_0000_0000_0000_0000_0000 <= r
            <= 0x4000_0000_0000_0000_0000_0000_0000_0000,
{
    if retry_count < 64 {
        let full: i128 = scaled(retry_count as u64, base_delay_secs);
        if retry_count <= MAX_BACKOFF_EXPONENT || reaches(last_retry_at, full) {
            return full;
        }
    }
    proof {
        if retry_count >= 64 {
            lemma2_to64_rest();
            if retry_count > 64 {
                lemma_pow2_strictly_increases(64, retry_count as nat);
            }
            let (base, factor) = (base_delay_secs as int, pow2(retry_count as nat) as int);
            assert(base == 0 ==> base * factor == 0) by (nonlinear_arith);
            assert(base >= 1 ==> base * factor >= factor) by (nonlinear_arith)
                requires
                    factor >= 0,
            ;
            assert(base <= -1 ==> base * factor <= -factor) by (nonlinear_arith)
                requires
                    factor >= 0,
            ;
            assert(base == 0 ==> full_delay(MAX_BACKOFF_EXPONENT as int, base) == 0)
                by (nonlinear_arith);
        }
    }
    scaled(MAX_BACKOFF_EXPONENT as u64, base_delay_secs)
}

/// Compute next retry timestamp: last_retry_at + base_delay * 2^retry_count.
///
/// Where that is not representable and more than `MAX_BACKOFF_EXPONENT` retries were made,
/// it is last_retry_at + base_delay * 2^`MAX_BACKOFF_EXPONENT`.
pub fn next_retry_at(last_retry_at: Timestamp, retry_count: i32, base_delay_secs: i64) -> (r:
    Timestamp)
    requires
        retry_in_range(last_retry_at, retry_count as int, base_delay_secs as int),
    ensures
        r.secs == last_retry_at.shifted_secs(
            backoff_delay(last_retry_at, retry_count as int, base_delay_secs as int),
        ),
        r.nanos == last_retry_at.shifted_nanos(
            backoff_delay(last_retry_at, retry_count as int, base_delay_secs as int),
        ),
        r == retry_time(last_retry_at, retry_count as int, base_delay_secs as int),
        r.valid(),
        ({
            let delay = base_delay_secs * pow2(retry_count as nat);
            last_retry_at.nanos < 1_000_000_000 && MIN_SECS <= last_retry_at.secs + delay
                <= MAX_SECS ==> r.secs == last_retry_at.secs + delay && r.nanos
                == last_retry_at.nanos
        }),
{
    let delay: i128 = delay_secs(&last_retry_at, retry_count, base_delay_secs);
    add_seconds(last_retry_at, delay as i64)
}

/// Whether the next retry is representable.
pub fn next_retry_in_range(last_retry_at: &Timestamp, retry_count: i32, base_delay_secs: i64) -> (r:
    bool)
    ensures
        r == retry_in_range(*last_retry_at, retry_count as int, base_delay_secs as int),
        retry_count < 0 ==> !r,
        ({
            let delay = base_delay_secs * pow2(retry_count as nat);
            retry_count >= 0 && MIN_SECS <= last_retry_at.secs <= MAX_SECS && last_retry_at.nanos
                < 1_000_000_000 && MIN_SECS <= last_retry_at.secs + delay <= MAX_SECS ==> r
        }),
{
    if retry_count < 0 || !last_retry_at.is_valid() {
        return false;
    }
    let delay: i128 = delay_secs(last_retry_at, retry_count, base_delay_secs);
    reaches(last_retry_at, delay)
}

/// What a retry of an entry amounts to: another attempt, or giving up once the entry has
/// been retried `max_retries` times.
pub open spec fn retry_flow(
    entry: TransactionDlq<Seq<char>>,
    notify: bool,
    max_retries: int,
    base_delay_secs: int,
    now: Timestamp,
) -> Flow<Seq<char>> {
    let retry_count = (entry.retry_count + 1) as i32;
    if retry_count > max_retries {
        Flow::GiveUp {
            dlq_id: entry.id,
            last_retry_at: now,
            notice: if notify {
                Some(
                    DlqExhausted {
                        dlq_id: entry.id,
                        transaction_id: entry.transaction_id,
                        error_reason: entry.error_reason,
                        retry_count,
                    },
                )
            } else {
                None
            },
        }
    } else {
        Flow::Retry {
            dlq_id: entry.id,
            tx_id: entry.transaction_id,
            asset_code: entry.asset_code,
            retry_count,
            last_retry_at: now,
            next: scheduled(now, retry_count as int, base_delay_secs),
        }
    }
}

/// The processor: the connections `P` that its statements run on, and the dispatcher `D`
/// of outgoing webhooks, if one is attached.
pub struct TransactionProcessor<P, D> {
    pub pool: P,
    pub webhook_dispatcher: Option<D>,
}

impl<P: Clone, D: Clone> Clone for TransactionProcessor<P, D> {
    fn clone(&self) -> (r: Self)
        ensures
            cloned(self.pool, r.pool),
            match (self.webhook_dispatcher, r.webhook_dispatcher) {
                (Some(a), Some(b)) => cloned(a, b),
                (None, None) => true,
                _ => false,
            },
    {
        TransactionProcessor {
            pool: self.pool.clone(),
            webhook_dispatcher: self.webhook_dispatcher.clone(),
        }
    }
}

impl<P, D> TransactionProcessor<P, D> {
    /// A processor without a dispatcher.
    pub fn new(pool: P) -> (r: Self)
        ensures
            r.pool == pool,
            r.webhook_dispatcher is None,
    {
        Self { pool, webhook_dispatcher: None }
    }

    /// Attach a dispatcher so that giving up on an entry triggers an outgoing webhook.
    pub fn with_webhook_dispatcher(self, dispatcher: D) -> (r: Self)
        ensures
            r.pool == self.pool,
            r.webhook_dispatcher == Some(dispatcher),
    {
        Self { pool: self.pool, webhook_dispatcher: Some(dispatcher) }
    }

    /// Completes a transaction: reads its asset code, sets its status to completed, and
    /// drops what is cached for the asset.
    pub fn process_transaction(&self, tx_id: u128) -> (r: Flow<String>)
        ensures
            r@ == (Flow::<Seq<char>>::FetchAsset { tx_id }),
    {
        Flow::FetchAsset { tx_id }
    }

    /// Takes an entry out of the queue: sets its transaction's status to pending, removes
    /// the entry, and drops what is cached for the asset.
    pub fn requeue_dlq(&self, dlq_id: u128) -> (r: Flow<String>)
        ensures
            r@ == (Flow::<Seq<char>>::FetchTransaction { dlq_id }),
    {
        Flow::FetchTransaction { dlq_id }
    }

    /// Starts a retry cycle at `now`: the statement that reads the due entries, which
    /// `DlqCycle::begin` takes up.
    pub fn process_dlq_retries(&self, now: Timestamp) -> (r: Statement)
        ensures
            r == (Statement::SelectDue { now }),
    {
        Statement::SelectDue { now }
    }

    /// Retries an entry, or gives it up once it has been retried `max_retries` times.
    pub fn retry_dlq_entry(
        &self,
        entry: &TransactionDlq<String>,
        max_retries: i32,
        base_delay_secs: i64,
        now: Timestamp,
    ) -> (r: Flow<String>)
        requires
            entry.retry_count < i32::MAX,
        ensures
            r@ == retry_flow(
                entry@,
                self.webhook_dispatcher is Some,
                max_retries as int,
                base_delay_secs as int,
                now,
            ),
            entry.retry_count + 1 <= max_retries ==> {
                &&& r matches Flow::Retry {
                    dlq_id,
                    tx_id,
                    asset_code,
                    retry_count,
                    last_retry_at,
                    next,
                }
                &&& dlq_id == entry.id
                &&& tx_id == entry.transaction_id
                &&& asset_code@ == entry.asset_code@
                &&& retry_count == entry.retry_count + 1
                &&& last_retry_at == now
                &&& next == scheduled(now, entry.retry_count + 1, base_delay_secs as int)
            },
            entry.retry_count + 1 > max_retries ==> {
                &&& r matches Flow::GiveUp { dlq_id, last_retry_at, notice }
                &&& dlq_id == entry.id
                &&& last_retry_at == now
                &&& notice is Some <==> self.webhook_dispatcher is Some
                &&& notice matches Some(n) ==> {
                    &&& n.dlq_id == entry.id
                    &&& n.transaction_id == entry.transaction_id
                    &&& n.error_reason@ == entry.error_reason@
                    &&& n.retry_count == entry.retry_count + 1
                }
            },
    {
        let retry_count: i32 = entry.retry_count + 1;
        if retry_count > max_retries {
            let notice = if self.webhook_dispatcher.is_some() {
                Some(
                    DlqExhausted {
                        dlq_id: entry.id,
                        transaction_id: entry.transaction_id,
                        error_reason: entry.error_reason.clone(),
                        retry_count,
                    },
                )
            } else {
                None
            };
            return Flow::GiveUp { dlq_id: entry.id, last_retry_at: now, notice };
        }
        let next = if next_retry_in_range(&now, retry_count, base_delay_secs) {
            Some(next_retry_at(now, retry_count, base_delay_secs))
        } else {
            None
        };
        Flow::Retry {
            dlq_id: entry.id,
            tx_id: entry.transaction_id,
            asset_code: entry.asset_code.clone(),
            retry_count,
            last_retry_at: now,
            next,
        }
    }
}

/// The entries that a retry cycle has still to take up.
pub struct DlqCycle {
    entries: Vec<TransactionDlq<String>>,
    position: usize,
    max_retries: i32,
    base_delay_secs: i64,
}

impl DlqCycle {
    #[verifier::type_invariant]
    spec fn inv(self) -> bool {
        self.position <= self.entries.len()
    }

    /// The entries still to be taken up, in order.
    pub closed spec fn remaining(self) -> Seq<TransactionDlq<Seq<char>>> {
        self.entries@.skip(self.position as int).map_values(|e: TransactionDlq<String>| e@)
    }

    /// The number of retries after which an entry is given up.
    pub closed spec fn max_retries(self) -> int {
        self.max_retries as int
    }

    /// The base delay of the backoff.
    pub closed spec fn base_delay_secs(self) -> int {
        self.base_delay_secs as int
    }

    /// Takes up the entries that were read, or ends with the failure to read them.
    pub fn begin<E>(
        due: Result<Vec<TransactionDlq<String>>, E>,
        max_retries: i32,
        base_delay_secs: i64,
    ) -> (r: Result<DlqCycle, E>)
        ensures
            match due {
                Ok(entries) => {
                    &&& r is Ok
                    &&& r->Ok_0.remaining() == entries@.map_values(
                        |e: TransactionDlq<String>| e@,
                    )
                    &&& r->Ok_0.max_retries() == max_retries
                    &&& r->Ok_0.base_delay_secs() == base_delay_secs
                },
                Err(e) => r == Err::<DlqCycle, E>(e),
            },
    {
        match due {
            Ok(entries) => {
                assert(entries@.skip(0) =~= entries@);
                Ok(DlqCycle { entries, position: 0, max_retries, base_delay_secs })
            },
            Err(e) => Err(e),
        }
    }

    /// The entry that comes next, if there is one.
    pub fn peek(&self) -> (r: Option<&TransactionDlq<String>>)
        ensures
            match r {
                Some(entry) => self.remaining().len() > 0 && entry@ == self.remaining()[0],
                None => self.remaining().len() == 0,
            },
    {
        proof {
            use_type_invariant(self);
        }
        if self.position < self.entries.len() {
            Some(&self.entries[self.position])
        } else {
            None
        }
    }

    /// Takes up the next entry, at `now`. What became of the entries before it has no
    /// part in this.
    pub fn next<P, D>(&mut self, processor: &TransactionProcessor<P, D>, now: Timestamp) -> (r:
        Option<Flow<String>>)
        requires
            old(self).remaining().len() > 0 ==> old(self).remaining()[0].retry_count < i32::MAX,
        ensures
            final(self).max_retries() == old(self).max_retries(),
            final(self).base_delay_secs() == old(self).base_delay_secs(),
            match r {
                Some(flow) => {
                    &&& old(self).remaining().len() > 0
                    &&& flow@ == retry_flow(
                        old(self).remaining()[0],
                        processor.webhook_dispatcher is Some,
                        old(self).max_retries(),
                        old(self).base_delay_secs(),
                        now,
                    )
                    &&& final(self).remaining() == old(self).remaining().drop_first()
                },
                None => {
                    &&& old(self).remaining().len() == 0
                    &&& final(self).remaining() == old(self).remaining()
                },
            },
    {
        proof {
            use_type_invariant(&*self);
        }
        if self.position == self.entries.len() {
            return None;
        }
        let ghost before = self.remaining();
        let flow = processor.retry_dlq_entry(
            &self.entries[self.position],
            self.max_retries,
            self.base_delay_secs,
            now,
        );
        self.position = self.position + 1;
        assert(self.remaining() =~= before.drop_first());
        Some(flow)
    }
}

/// When the next retry is due, from the instant, the count and the base alone. It is
/// `base * 2^count` seconds away if there is such an instant. If not, and the count is
/// above 30, it is `base * 2^30` seconds away if there is such an instant. Otherwise, and
/// for a negative count or an instant that does not exist, there is none.
pub proof fn law_schedule(now: Timestamp, retry_count: int, base_delay_secs: int)
    ensures
        ({
            let exists_now = MIN_SECS <= now.secs <= MAX_SECS && (now.nanos < 1_000_000_000
                || now.nanos < 2_000_000_000 && (now.secs as int) % 60 == 59);
            let leap = now.nanos >= 1_000_000_000;
            let full = base_delay_secs * pow2(retry_count as nat);
            let capped = base_delay_secs * 0x4000_0000;
            let full_secs = if leap && full < 0 {
                now.secs + full + 1
            } else {
                now.secs + full
            };
            let capped_secs = if leap && capped < 0 {
                now.secs + capped + 1
            } else {
                now.secs + capped
            };
            let nanos = if leap && base_delay_secs != 0 {
                now.nanos - 1_000_000_000
            } else {
                now.nanos as int
            };
            let next = scheduled(now, retry_count, base_delay_secs);
            if retry_count < 0 || !exists_now {
                next is None
            } else if MIN_SECS <= full_secs <= MAX_SECS {
                next is Some && next->0.secs == full_secs && next->0.nanos == nanos
            } else if retry_count > 30 && MIN_SECS <= capped_secs <= MAX_SECS {
                next is Some && next->0.secs == capped_secs && next->0.nanos == nanos
            } else {
                next is None
            }
        }),
{
    lemma2_to64();
    let factor = pow2(retry_count as nat) as int;
    lemma_pow2_pos(retry_count as nat);
    assert(base_delay_secs == 0 <==> base_delay_secs * factor == 0) by (nonlinear_arith)
        requires
            factor > 0,
    ;
}

/// Away from leap seconds, the later a retry is made the later the next one is due, by as
/// much.
pub proof fn law_schedule_moves_along(
    now: Timestamp,
    later: Timestamp,
    retry_count: int,
    base_delay_secs: int,
)
    requires
        retry_count >= 0,
        now.nanos < 1_000_000_000,
        later.nanos < 1_000_000_000,
        MIN_SECS <= now.secs,
        now.secs <= later.secs <= MAX_SECS,
        MIN_SECS <= now.secs + base_delay_secs * pow2(retry_count as nat) <= MAX_SECS,
        MIN_SECS <= later.secs + base_delay_secs * pow2(retry_count as nat) <= MAX_SECS,
    ensures
        ({
            let first = scheduled(now, retry_count, base_delay_secs);
            let second = scheduled(later, retry_count, base_delay_secs);
            &&& first is Some && second is Some
            &&& second->0.secs - first->0.secs == later.secs - now.secs
            &&& first->0.nanos == now.nanos
            &&& second->0.nanos == later.nanos
        }),
{
    law_schedule(now, retry_count, base_delay_secs);
    law_schedule(later, retry_count, base_delay_secs);
}

/// Whether an entry is retried or given up goes by its count alone: it is given up exactly
/// if one more retry would be more than `max_retries`. Either is about the entry itself and
/// holds the instant of this retry, whatever the entry says of earlier ones.
pub proof fn law_retry_or_give_up(
    entry: TransactionDlq<Seq<char>>,
    notify: bool,
    max_retries: int,
    base_delay_secs: int,
    now: Timestamp,
)
    requires
        entry.retry_count < i32::MAX,
    ensures
        ({
            let flow = retry_flow(entry, notify, max_retries, base_delay_secs, now);
            &&& flow is GiveUp <==> entry.retry_count >= max_retries
            &&& flow is Retry <==> entry.retry_count < max_retries
            &&& flow matches Flow::Retry {
                dlq_id,
                tx_id,
                asset_code,
                retry_count,
                last_retry_at,
                next,
            } ==> {
                &&& dlq_id == entry.id
                &&& tx_id == entry.transaction_id
                &&& asset_code == entry.asset_code
                &&& retry_count - entry.retry_count == 1
                &&& last_retry_at == now
                &&& next == scheduled(now, entry.retry_count + 1, base_delay_secs)
            }
            &&& flow matches Flow::GiveUp { dlq_id, last_retry_at, notice } ==> {
                &&& dlq_id == entry.id
                &&& last_retry_at == now
                &&& notice is Some <==> notify
                &&& notice matches Some(n) ==> {
                    &&& n.dlq_id == entry.id
                    &&& n.transaction_id == entry.transaction_id
                    &&& n.error_reason == entry.error_reason
                    &&& n.retry_count - entry.retry_count == 1
                }
            }
        }),
{
}

} // verus!
